use macro_workshop::sorted::{is_sorted, out_of_order_message, sorted, str_lt, Item, SortedError};
use macro_workshop::error::{Error, ErrorKind};
use macro_workshop::token::Ident;

fn idents(names: &[&str]) -> Vec<Ident> {
    names.iter().enumerate().map(|(k, n)| Ident { name: n.to_string(), span: 100 + k }).collect()
}

#[test]
fn variants_out_of_order_are_reported_at_the_later_one() {
    let variants = idents(&["B", "A"]);
    let r = sorted(&Item::Enum { variants });
    assert_eq!(r, Err(SortedError::OutOfOrder { index: 1, before: 0 }));
    let variants = idents(&["B", "A"]);
    assert_eq!(out_of_order_message(&variants[1].name, &variants[0].name), "A should sort before B");
}

#[test]
fn sorted_variants_pass() {
    assert_eq!(sorted(&Item::Enum { variants: idents(&["Eof", "Io", "Syntax"]) }), Ok(()));
    assert_eq!(sorted(&Item::Enum { variants: idents(&[]) }), Ok(()));
    assert_eq!(sorted(&Item::Enum { variants: idents(&["A", "A"]) }), Ok(()));
}

#[test]
fn first_violation_names_first_greater_predecessor() {
    // "Io" sorts before both "Syntax" and "Tx"; the first earlier one is named
    let r = is_sorted(&idents(&["Eof", "Syntax", "Tx", "Io", "A"]));
    assert_eq!(r, Err(SortedError::OutOfOrder { index: 3, before: 1 }));
}

#[test]
fn non_enum_is_refused() {
    assert_eq!(sorted(&Item::Other), Err(SortedError::NotEnum));
}

#[test]
fn byte_order_comparison() {
    let s = |x: &str| x.to_string();
    assert!(str_lt(&s("A"), &s("B")));
    assert!(str_lt(&s("Z"), &s("a")));
    assert!(str_lt(&s("Ab"), &s("Abc")));
    assert!(!str_lt(&s("Abc"), &s("Ab")));
    assert!(!str_lt(&s("same"), &s("same")));
    assert!(str_lt(&s("zz"), &s("é")));
}

#[test]
fn error_kinds_are_not_in_order() {
    let e = Error { kind: ErrorKind::Eof, message: "unexpected end".to_string() };
    assert_eq!(e.kind, ErrorKind::Eof);
    let r = sorted(&Item::Enum { variants: idents(&["Io", "Syntax", "Eof"]) });
    assert_eq!(r, Err(SortedError::OutOfOrder { index: 2, before: 0 }));
}
