use vstd::prelude::*;

use crate::token::Ident;

verus! {

/// `a` sorts strictly before `b`: lexicographic order of characters, which
/// for UTF-8 text is the order of its bytes.
pub open spec fn lex_lt(a: Seq<char>, b: Seq<char>) -> bool
    decreases a.len(),
{
    if a.len() == 0 {
        b.len() > 0
    } else if b.len() == 0 {
        false
    } else if a[0] != b[0] {
        (a[0] as u32) < (b[0] as u32)
    } else {
        lex_lt(a.skip(1), b.skip(1))
    }
}

/// Whether `a` sorts strictly before `b`.
pub fn str_lt(a: &String, b: &String) -> (r: bool)
    ensures
        r == lex_lt(a@, b@),
{
    let sa = a.as_str();
    let sb = b.as_str();
    let la = sa.unicode_len();
    let lb = sb.unicode_len();
    let mut i: usize = 0;
    assert(a@.skip(0) =~= a@ && b@.skip(0) =~= b@);
    while i < la && i < lb
        invariant
            sa@ == a@,
            sb@ == b@,
            i <= la,
            i <= lb,
            la == a@.len(),
            lb == b@.len(),
            lex_lt(a@, b@) == lex_lt(a@.skip(i as int), b@.skip(i as int)),
        decreases la - i,
    {
        let ca = sa.get_char(i);
        let cb = sb.get_char(i);
        assert(a@.skip(i as int)[0] == ca && b@.skip(i as int)[0] == cb);
        assert(a@.skip(i as int).len() > 0 && b@.skip(i as int).len() > 0);
        if ca != cb {
            return (ca as u32) < (cb as u32);
        }
        assert(a@.skip(i as int).skip(1) =~= a@.skip(i + 1));
        assert(b@.skip(i as int).skip(1) =~= b@.skip(i + 1));
        i = i + 1;
    }
    i == la && i < lb
}

/// The item that the ordering check is applied to.
#[derive(Debug)]
pub enum Item {
    /// An enum, with its variant names in declaration order.
    Enum { variants: Vec<Ident> },
    /// Any other item.
    Other,
}

/// Why an item is refused.
#[derive(Clone, Copy, Debug, PartialEq, Eq, Structural)]
pub enum SortedError {
    /// The item is not an enum.
    NotEnum,
    /// The variant at `index` sorts before the earlier variant at `before`.
    OutOfOrder { index: usize, before: usize },
}

pub open spec fn names_of(idents: Seq<Ident>) -> Seq<Seq<char>> {
    idents.map_values(|id: Ident| id.name@)
}

/// The name at `i` sorts before the earlier name at `j`.
pub open spec fn out_of_order(names: Seq<Seq<char>>, i: int, j: int) -> bool {
    0 <= j < i < names.len() && lex_lt(names[i], names[j])
}

/// No name sorts before an earlier one.
pub open spec fn is_sorted_names(names: Seq<Seq<char>>) -> bool {
    forall|i: int, j: int| !out_of_order(names, i, j)
}

/// `(index, before)` is the first violation: `index` is the first name that
/// sorts before some earlier name, and `before` the first such earlier name.
pub open spec fn first_violation(names: Seq<Seq<char>>, index: int, before: int) -> bool {
    &&& out_of_order(names, index, before)
    &&& forall|i: int, j: int| i < index ==> !out_of_order(names, i, j)
    &&& forall|j: int| j < before ==> !out_of_order(names, index, j)
}

/// Checks that each name sorts at or after every earlier one, and reports
/// the first name that does not, with the first earlier name it should
/// precede.
pub fn is_sorted(idents: &Vec<Ident>) -> (r: Result<(), SortedError>)
    ensures
        r is Ok <==> is_sorted_names(names_of(idents@)),
        match r {
            Ok(()) => true,
            Err(SortedError::OutOfOrder { index, before }) => first_violation(
                names_of(idents@),
                index as int,
                before as int,
            ),
            Err(SortedError::NotEnum) => false,
        },
{
    let ghost names = names_of(idents@);
    let mut i: usize = 0;
    while i < idents.len()
        invariant
            names == names_of(idents@),
            i <= idents@.len(),
            forall|a: int, b: int| a < i ==> !out_of_order(names, a, b),
        decreases idents@.len() - i,
    {
        let mut j: usize = 0;
        while j < i
            invariant
                names == names_of(idents@),
                j <= i < idents@.len(),
                forall|a: int, b: int| a < i ==> !out_of_order(names, a, b),
                forall|b: int| b < j ==> !out_of_order(names, i as int, b),
            decreases i - j,
        {
            if str_lt(&idents[i].name, &idents[j].name) {
                assert(names[i as int] == idents@[i as int].name@);
                assert(names[j as int] == idents@[j as int].name@);
                assert(out_of_order(names, i as int, j as int));
                return Err(SortedError::OutOfOrder { index: i, before: j });
            }
            assert(names[i as int] == idents@[i as int].name@);
            assert(names[j as int] == idents@[j as int].name@);
            j = j + 1;
        }
        i = i + 1;
    }
    Ok(())
}

/// Checks an item for the ordering attribute: it must be an enum whose
/// variants are sorted.
pub fn sorted(item: &Item) -> (r: Result<(), SortedError>)
    ensures
        match item {
            Item::Other => r == Err::<(), SortedError>(SortedError::NotEnum),
            Item::Enum { variants } => {
                &&& r is Ok <==> is_sorted_names(names_of(variants@))
                &&& r matches Err(SortedError::OutOfOrder { index, before }) ==> first_violation(
                    names_of(variants@),
                    index as int,
                    before as int,
                )
                &&& r != Err::<(), SortedError>(SortedError::NotEnum)
            },
        },
{
    match item {
        Item::Enum { variants } => is_sorted(variants),
        Item::Other => Err(SortedError::NotEnum),
    }
}

/// The message for a name that sorts before an earlier one:
/// `"<name> should sort before <before>"`.
pub fn out_of_order_message(name: &String, before: &String) -> (r: String)
    ensures
        r@ == name@ + " should sort before "@ + before@,
{
    let mut m = name.clone();
    m.append(" should sort before ");
    m.append(before.as_str());
    m
}

} // verus!
