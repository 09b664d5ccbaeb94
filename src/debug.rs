use vstd::prelude::*;

use crate::syntax::{
    names, option_is, string_is, Data, DeriveError, DeriveErrorKind, DeriveInput, Field, Fields,
    GenericArg, Meta, PathEnd, Type,
};
use crate::token::Ident;

verus! {

/// The texts of a sequence of strings.
pub open spec fn texts(v: Seq<String>) -> Seq<Seq<char>> {
    v.map_values(|x: String| x@)
}

proof fn lemma_texts_push(v: Seq<String>, x: String)
    ensures
        texts(v.push(x)) == texts(v).push(x@),
{
    assert(texts(v.push(x)) =~= texts(v).push(x@));
}

/// Whether `n` occurs in `v`.
pub fn contains_name(v: &Vec<String>, n: &String) -> (r: bool)
    ensures
        r == texts(v@).contains(n@),
{
    let mut j: usize = 0;
    while j < v.len()
        invariant
            j <= v@.len(),
            forall|i: int| 0 <= i < j ==> texts(v@)[i] != n@,
        decreases v@.len() - j,
    {
        if v[j] == *n {
            assert(texts(v@)[j as int] == n@);
            return true;
        }
        j = j + 1;
    }
    false
}

/// Appends the strings of `src` to `dst`.
fn push_all(dst: &mut Vec<String>, src: &Vec<String>)
    ensures
        texts(final(dst)@) == texts(old(dst)@) + texts(src@),
{
    let ghost start = dst@;
    let mut j: usize = 0;
    while j < src.len()
        invariant
            j <= src@.len(),
            texts(dst@) == texts(start) + texts(src@.take(j as int)),
        decreases src@.len() - j,
    {
        let ghost before = dst@;
        let x = src[j].clone();
        dst.push(x);
        proof {
            lemma_texts_push(before, x);
            assert(src@.take(j + 1) == src@.take(j as int).push(src@[j as int]));
            lemma_texts_push(src@.take(j as int), src@[j as int]);
            assert(texts(dst@) =~= texts(start) + texts(src@.take(j + 1)));
        }
        j = j + 1;
    }
    assert(src@.take(j as int) =~= src@);
}

/// The generic arguments among `args` that are bare identifiers, as names,
/// in order.
pub open spec fn arg_idents(args: Seq<GenericArg>) -> Seq<Seq<char>>
    decreases args.len(),
{
    if args.len() == 0 {
        Seq::empty()
    } else {
        let rest = arg_idents(args.drop_last());
        match args.last() {
            GenericArg::Type(t) => if t.path is Some && t.path->0.single_ident {
                rest.push(t.path->0.ident.name@)
            } else {
                rest
            },
            GenericArg::Other => rest,
        }
    }
}

/// The bare-identifier generic arguments of a path, none where it has no
/// angle-bracketed arguments.
pub open spec fn path_arg_idents(pe: PathEnd) -> Seq<Seq<char>> {
    match pe.args {
        Some(args) => arg_idents(args@),
        None => Seq::empty(),
    }
}

/// The path of a type, where it is a path type.
pub fn extract_ty_path(ty: &Type) -> (r: Option<&PathEnd>)
    ensures
        match r {
            Some(pe) => ty.path == Some(*pe),
            None => ty.path is None,
        },
{
    match &ty.path {
        Some(pe) => Some(pe),
        None => None,
    }
}

/// The generic arguments of a path that are bare identifiers, as names.
pub fn extract_ty_idents(pe: &PathEnd) -> (r: Vec<String>)
    ensures
        texts(r@) == path_arg_idents(*pe),
{
    let mut out: Vec<String> = Vec::new();
    match &pe.args {
        Some(args) => {
            let mut k: usize = 0;
            while k < args.len()
                invariant
                    k <= args@.len(),
                    texts(out@) == arg_idents(args@.take(k as int)),
                decreases args@.len() - k,
            {
                let ghost before = out@;
                assert(args@.take(k + 1).drop_last() == args@.take(k as int));
                assert(args@.take(k + 1).last() == args@[k as int]);
                if let GenericArg::Type(t) = &args[k] {
                    if let Some(p) = &t.path {
                        if p.single_ident {
                            let x = p.ident.name.clone();
                            out.push(x);
                            proof {
                                lemma_texts_push(before, x);
                            }
                        }
                    }
                }
                k = k + 1;
            }
            assert(args@.take(k as int) =~= args@);
        },
        None => {},
    }
    out
}

/// The names that `ts` uses as arguments of `PhantomData`, in order.
pub open spec fn phantom_names(ts: Seq<Type>) -> Seq<Seq<char>>
    decreases ts.len(),
{
    if ts.len() == 0 {
        Seq::empty()
    } else {
        let rest = phantom_names(ts.drop_last());
        match ts.last().path {
            Some(pe) => if pe.ident.name@ == "PhantomData"@ {
                rest + path_arg_idents(pe)
            } else {
                rest
            },
            None => rest,
        }
    }
}

/// The names that `ts` uses outside `PhantomData`: each path type's own
/// name and its bare-identifier arguments, in order.
pub open spec fn plain_names(ts: Seq<Type>) -> Seq<Seq<char>>
    decreases ts.len(),
{
    if ts.len() == 0 {
        Seq::empty()
    } else {
        let rest = plain_names(ts.drop_last());
        match ts.last().path {
            Some(pe) => if pe.ident.name@ == "PhantomData"@ {
                rest
            } else {
                rest + seq![pe.ident.name@] + path_arg_idents(pe)
            },
            None => rest,
        }
    }
}

/// The declared types of the fields.
pub open spec fn field_types(fields: Fields) -> Seq<Type> {
    match fields {
        Fields::Named(fs) => Seq::new(fs@.len(), |k: int| fs@[k].ty),
        Fields::Unnamed(ts) => ts@,
        Fields::Unit => Seq::empty(),
    }
}

/// Type parameter `n` gets a `Debug` bound unless the fields use it only
/// inside `PhantomData`.
pub open spec fn needs_debug_bound(fields: Fields, n: Seq<char>) -> bool {
    let ts = field_types(fields);
    !(phantom_names(ts).contains(n) && !plain_names(ts).contains(n))
}

/// Adds the names that `ty` uses to `phantom` and `plain`.
fn collect_type_idents(ty: &Type, phantom: &mut Vec<String>, plain: &mut Vec<String>)
    ensures
        texts(final(phantom)@) == texts(old(phantom)@) + phantom_names(seq![*ty]),
        texts(final(plain)@) == texts(old(plain)@) + plain_names(seq![*ty]),
{
    let ghost one = seq![*ty];
    assert(one.drop_last() =~= Seq::<Type>::empty());
    assert(phantom_names(one.drop_last()) =~= Seq::<Seq<char>>::empty());
    assert(plain_names(one.drop_last()) =~= Seq::<Seq<char>>::empty());
    assert(one.last() == *ty);
    proof {
        reveal_strlit("PhantomData");
    }
    match extract_ty_path(ty) {
        Some(pe) => {
            let args = extract_ty_idents(pe);
            if string_is(&pe.ident.name, "PhantomData") {
                push_all(phantom, &args);
                assert(texts(plain@) =~= texts(old(plain)@) + plain_names(one));
            } else {
                let own = vec![pe.ident.name.clone()];
                assert(texts(own@) =~= seq![pe.ident.name@]);
                push_all(plain, &own);
                push_all(plain, &args);
                assert(texts(phantom@) =~= texts(old(phantom)@) + phantom_names(one));
                assert(texts(plain@) =~= texts(old(plain)@) + plain_names(one));
            }
        },
        None => {
            assert(texts(phantom@) =~= texts(old(phantom)@) + phantom_names(one));
            assert(texts(plain@) =~= texts(old(plain)@) + plain_names(one));
        },
    }
}

proof fn lemma_names_step(ts: Seq<Type>, k: int)
    requires
        0 <= k < ts.len(),
    ensures
        phantom_names(ts.take(k + 1)) == phantom_names(ts.take(k)) + phantom_names(seq![ts[k]]),
        plain_names(ts.take(k + 1)) == plain_names(ts.take(k)) + plain_names(seq![ts[k]]),
{
    let one = seq![ts[k]];
    assert(one.drop_last() =~= Seq::<Type>::empty());
    assert(phantom_names(one.drop_last()) =~= Seq::<Seq<char>>::empty());
    assert(plain_names(one.drop_last()) =~= Seq::<Seq<char>>::empty());
    assert(ts.take(k + 1).drop_last() =~= ts.take(k));
    assert(phantom_names(ts.take(k + 1)) =~= phantom_names(ts.take(k)) + phantom_names(one));
    assert(plain_names(ts.take(k + 1)) =~= plain_names(ts.take(k)) + plain_names(one));
}

/// Which type parameters get a `Debug` bound, in order: all but those that
/// the fields use only inside `PhantomData`.
pub fn add_debug_bound(fields: &Fields, type_params: &Vec<Ident>) -> (r: Vec<bool>)
    ensures
        r@.len() == type_params@.len(),
        forall|k: int|
            0 <= k < r@.len() ==> r@[k] == needs_debug_bound(*fields, type_params@[k].name@),
{
    let ghost ts = field_types(*fields);
    let mut phantom: Vec<String> = Vec::new();
    let mut plain: Vec<String> = Vec::new();
    match fields {
        Fields::Named(fs) => {
            let mut k: usize = 0;
            while k < fs.len()
                invariant
                    ts == field_types(*fields),
                    *fields == Fields::Named(*fs),
                    k <= fs@.len(),
                    texts(phantom@) == phantom_names(ts.take(k as int)),
                    texts(plain@) == plain_names(ts.take(k as int)),
                decreases fs@.len() - k,
            {
                collect_type_idents(&fs[k].ty, &mut phantom, &mut plain);
                proof {
                    assert(ts[k as int] == fs@[k as int].ty);
                    lemma_names_step(ts, k as int);
                }
                k = k + 1;
            }
            assert(ts.take(k as int) =~= ts);
        },
        Fields::Unnamed(types) => {
            let mut k: usize = 0;
            while k < types.len()
                invariant
                    ts == field_types(*fields),
                    *fields == Fields::Unnamed(*types),
                    k <= types@.len(),
                    texts(phantom@) == phantom_names(ts.take(k as int)),
                    texts(plain@) == plain_names(ts.take(k as int)),
                decreases types@.len() - k,
            {
                collect_type_idents(&types[k], &mut phantom, &mut plain);
                proof {
                    lemma_names_step(ts, k as int);
                }
                k = k + 1;
            }
            assert(ts.take(k as int) =~= ts);
        },
        Fields::Unit => {
            assert(texts(phantom@) =~= phantom_names(ts));
            assert(texts(plain@) =~= plain_names(ts));
        },
    }
    let mut r: Vec<bool> = Vec::new();
    let mut k: usize = 0;
    while k < type_params.len()
        invariant
            k <= type_params@.len(),
            r@.len() == k,
            ts == field_types(*fields),
            texts(phantom@) == phantom_names(ts),
            texts(plain@) == plain_names(ts),
            forall|j: int|
                0 <= j < k ==> r@[j] == needs_debug_bound(*fields, type_params@[j].name@),
        decreases type_params@.len() - k,
    {
        let name = &type_params[k].name;
        let only_phantom = contains_name(&phantom, name) && !contains_name(&plain, name);
        r.push(!only_phantom);
        k = k + 1;
    }
    r
}

/// One line of the generated dump.
#[derive(Debug)]
pub enum DebugEntry {
    /// `name: value`, the value in its default representation.
    Plain { field: Ident },
    /// `name: value`, the value formatted by the string literal whose handle
    /// is `format`.
    Formatted { field: Ident, format: usize },
    /// The tuple field at `index`, labelled by its index.
    Positional { index: usize },
}

pub enum EntryView {
    Plain { name: Seq<char>, span: usize },
    Formatted { name: Seq<char>, span: usize, format: usize },
    Positional { index: int },
}

impl DebugEntry {
    pub open spec fn view(&self) -> EntryView {
        match self {
            DebugEntry::Plain { field } => EntryView::Plain { name: field.name@, span: field.span },
            DebugEntry::Formatted { field, format } => EntryView::Formatted {
                name: field.name@,
                span: field.span,
                format: *format,
            },
            DebugEntry::Positional { index } => EntryView::Positional { index: *index as int },
        }
    }
}

pub open spec fn entries_view(v: Seq<DebugEntry>) -> Seq<EntryView> {
    v.map_values(|e: DebugEntry| e@)
}

/// The entry of a field from its last attribute, which must read
/// `debug = "format"`.
pub open spec fn attr_entry(f: Field) -> Result<EntryView, DeriveError> {
    let a = f.attrs@.last();
    if !names(a.path, "debug"@) {
        Err(DeriveError { kind: DeriveErrorKind::ExpectedDebug, span: a.path_span })
    } else {
        match a.meta {
            Meta::NameValue { lit, .. } => Ok(
                EntryView::Formatted { name: f.ident.name@, span: f.ident.span, format: lit.id },
            ),
            Meta::Invalid { span } => Err(
                DeriveError { kind: DeriveErrorKind::InvalidAttribute, span },
            ),
            Meta::Path { span } => Err(
                DeriveError { kind: DeriveErrorKind::ExpectedNameValue, span },
            ),
            Meta::List { span, .. } => Err(
                DeriveError { kind: DeriveErrorKind::ExpectedNameValue, span },
            ),
        }
    }
}

/// The entry of a named field: plain without attributes, else as its last
/// attribute says.
pub open spec fn named_entry(f: Field) -> Result<EntryView, DeriveError> {
    if f.attrs@.len() == 0 {
        Ok(EntryView::Plain { name: f.ident.name@, span: f.ident.span })
    } else {
        attr_entry(f)
    }
}

/// Reads the custom format of a field from its last attribute,
/// `debug = "format"`.
pub fn parse_named_field_attrs(f: &Field) -> (r: Result<DebugEntry, DeriveError>)
    requires
        f.attrs@.len() > 0,
    ensures
        match r {
            Ok(e) => attr_entry(*f) == Ok::<EntryView, DeriveError>(e@),
            Err(e) => attr_entry(*f) == Err::<EntryView, DeriveError>(e),
        },
{
    let a = &f.attrs[f.attrs.len() - 1];
    proof {
        reveal_strlit("debug");
    }
    if !option_is(&a.path, "debug") {
        return Err(DeriveError { kind: DeriveErrorKind::ExpectedDebug, span: a.path_span });
    }
    match &a.meta {
        Meta::NameValue { lit, .. } => Ok(DebugEntry::Formatted { field: f.ident.copy(), format: lit.id }),
        Meta::Invalid { span } => Err(DeriveError { kind: DeriveErrorKind::InvalidAttribute, span: *span }),
        Meta::Path { span } => Err(DeriveError { kind: DeriveErrorKind::ExpectedNameValue, span: *span }),
        Meta::List { span, .. } => Err(DeriveError { kind: DeriveErrorKind::ExpectedNameValue, span: *span }),
    }
}

/// The entry of a named field.
pub fn parse_named_field(f: &Field) -> (r: Result<DebugEntry, DeriveError>)
    ensures
        match r {
            Ok(e) => named_entry(*f) == Ok::<EntryView, DeriveError>(e@),
            Err(e) => named_entry(*f) == Err::<EntryView, DeriveError>(e),
        },
{
    if f.attrs.len() == 0 {
        Ok(DebugEntry::Plain { field: f.ident.copy() })
    } else {
        parse_named_field_attrs(f)
    }
}

/// The entries of all named fields in order, or the error of the first field
/// whose attribute is malformed.
pub open spec fn named_entries(fields: Seq<Field>) -> Result<Seq<EntryView>, DeriveError>
    decreases fields.len(),
{
    if fields.len() == 0 {
        Ok(Seq::empty())
    } else {
        match named_entries(fields.drop_last()) {
            Err(e) => Err(e),
            Ok(es) => match named_entry(fields.last()) {
                Err(e) => Err(e),
                Ok(x) => Ok(es.push(x)),
            },
        }
    }
}

/// The entries of the named fields, in order.
pub fn handle_named_fields(fields: &Vec<Field>) -> (r: Result<Vec<DebugEntry>, DeriveError>)
    ensures
        match r {
            Ok(v) => named_entries(fields@) == Ok::<Seq<EntryView>, DeriveError>(entries_view(v@)),
            Err(e) => named_entries(fields@) == Err::<Seq<EntryView>, DeriveError>(e),
        },
{
    let mut out: Vec<DebugEntry> = Vec::new();
    let mut k: usize = 0;
    assert(fields@.take(0) =~= Seq::<Field>::empty());
    assert(entries_view(out@) =~= Seq::<EntryView>::empty());
    while k < fields.len()
        invariant
            k <= fields@.len(),
            named_entries(fields@.take(k as int)) == Ok::<Seq<EntryView>, DeriveError>(
                entries_view(out@),
            ),
        decreases fields@.len() - k,
    {
        let ghost before = out@;
        assert(fields@.take(k + 1).drop_last() == fields@.take(k as int));
        assert(fields@.take(k + 1).last() == fields@[k as int]);
        match parse_named_field(&fields[k]) {
            Ok(e) => {
                out.push(e);
                assert(entries_view(out@) =~= entries_view(before).push(e@));
            },
            Err(e) => {
                proof {
                    lemma_named_entries_err(fields@, k as int + 1);
                }
                return Err(e);
            },
        }
        k = k + 1;
    }
    assert(fields@.take(k as int) =~= fields@);
    Ok(out)
}

proof fn lemma_named_entries_err(fields: Seq<Field>, k: int)
    requires
        0 < k <= fields.len(),
        named_entries(fields.take(k)) is Err,
    ensures
        named_entries(fields) == named_entries(fields.take(k)),
    decreases fields.len() - k,
{
    if k < fields.len() {
        assert(fields.take(k + 1).drop_last() == fields.take(k));
        lemma_named_entries_err(fields, k + 1);
    } else {
        assert(fields.take(k) =~= fields);
    }
}

/// The fields of a struct; an enum or a union is refused at its keyword.
pub fn parse_data(data: &Data) -> (r: Result<&Fields, DeriveError>)
    ensures
        match *data {
            Data::Struct(fs) => r == Ok::<&Fields, DeriveError>(&fs),
            Data::Enum { token_span } => r == Err::<&Fields, DeriveError>(
                DeriveError { kind: DeriveErrorKind::EnumUnsupported, span: token_span },
            ),
            Data::Union { token_span } => r == Err::<&Fields, DeriveError>(
                DeriveError { kind: DeriveErrorKind::UnionUnsupported, span: token_span },
            ),
        },
{
    match data {
        Data::Struct(fs) => Ok(fs),
        Data::Enum { token_span } => Err(
            DeriveError { kind: DeriveErrorKind::EnumUnsupported, span: *token_span },
        ),
        Data::Union { token_span } => Err(
            DeriveError { kind: DeriveErrorKind::UnionUnsupported, span: *token_span },
        ),
    }
}

/// The debug formatter generated for a struct: its name, which type
/// parameters get a `Debug` bound, and one entry per field.
#[derive(Debug)]
pub struct DebugPlan {
    pub ident: Ident,
    pub bounded: Vec<bool>,
    pub entries: Vec<DebugEntry>,
}

/// The entries of a struct's fields: by name for named fields, by index for
/// a tuple struct, none for a unit struct.
pub open spec fn fields_entries(fields: Fields) -> Result<Seq<EntryView>, DeriveError> {
    match fields {
        Fields::Named(fs) => named_entries(fs@),
        Fields::Unnamed(ts) => Ok(Seq::new(ts@.len(), |k: int| EntryView::Positional { index: k })),
        Fields::Unit => Ok(Seq::empty()),
    }
}

/// The debug-formatter derive: refuses an enum or a union; else gives the
/// entries of the fields, or the error of the first malformed field
/// attribute, and bounds every type parameter by `Debug` but those that the
/// fields use only inside `PhantomData`.
pub fn parse_derive_input(input: &DeriveInput) -> (r: Result<DebugPlan, DeriveError>)
    ensures
        match input.data {
            Data::Enum { token_span } => r == Err::<DebugPlan, DeriveError>(
                DeriveError { kind: DeriveErrorKind::EnumUnsupported, span: token_span },
            ),
            Data::Union { token_span } => r == Err::<DebugPlan, DeriveError>(
                DeriveError { kind: DeriveErrorKind::UnionUnsupported, span: token_span },
            ),
            Data::Struct(fields) => match r {
                Ok(plan) => {
                    &&& plan.ident.name@ == input.ident.name@
                    &&& plan.ident.span == input.ident.span
                    &&& fields_entries(fields) == Ok::<Seq<EntryView>, DeriveError>(
                        entries_view(plan.entries@),
                    )
                    &&& plan.bounded@.len() == input.type_params@.len()
                    &&& forall|k: int|
                        0 <= k < plan.bounded@.len() ==> plan.bounded@[k] == needs_debug_bound(
                            fields,
                            input.type_params@[k].name@,
                        )
                },
                Err(e) => fields_entries(fields) == Err::<Seq<EntryView>, DeriveError>(e),
            },
        },
{
    let fields = match parse_data(&input.data) {
        Ok(fs) => fs,
        Err(e) => return Err(e),
    };
    let bounded = add_debug_bound(fields, &input.type_params);
    let entries = match fields {
        Fields::Named(fs) => match handle_named_fields(fs) {
            Ok(v) => v,
            Err(e) => return Err(e),
        },
        Fields::Unnamed(ts) => {
            let mut v: Vec<DebugEntry> = Vec::new();
            let mut k: usize = 0;
            while k < ts.len()
                invariant
                    k <= ts@.len(),
                    v@.len() == k,
                    entries_view(v@) == Seq::new(k as nat, |j: int| EntryView::Positional { index: j }),
                decreases ts@.len() - k,
            {
                let ghost before = v@;
                v.push(DebugEntry::Positional { index: k });
                assert(v@[k as int]@ == EntryView::Positional { index: k as int });
                assert forall|j: int| 0 <= j < k + 1 implies #[trigger] entries_view(v@)[j]
                    == EntryView::Positional { index: j } by {
                    if j < k {
                        assert(v@[j] == before[j]);
                        assert(entries_view(before)[j] == EntryView::Positional { index: j });
                    }
                }
                assert(entries_view(v@) =~= Seq::new((k + 1) as nat, |j: int| EntryView::Positional { index: j }));
                k = k + 1;
            }
            v
        },
        Fields::Unit => {
            let v: Vec<DebugEntry> = Vec::new();
            assert(entries_view(v@) =~= Seq::<EntryView>::empty());
            v
        },
    };
    Ok(DebugPlan { ident: input.ident.copy(), bounded, entries })
}

} // verus!
