use macro_workshop::debug::{add_debug_bound, extract_ty_idents, parse_derive_input, DebugEntry};
use macro_workshop::syntax::{
    Attribute, Data, DeriveErrorKind, DeriveInput, Field, Fields, GenericArg, Lit, Meta, PathEnd, Type,
};
use macro_workshop::token::Ident;

fn ident(name: &str, span: usize) -> Ident {
    Ident { name: name.to_string(), span }
}

fn plain_ty(name: &str, id: usize) -> Type {
    Type { id, path: Some(PathEnd { ident: ident(name, id), single_ident: true, args: None }) }
}

fn generic_ty(name: &str, id: usize, args: Vec<Type>) -> Type {
    let args = args.into_iter().map(GenericArg::Type).collect();
    Type { id, path: Some(PathEnd { ident: ident(name, id), single_ident: false, args: Some(args) }) }
}

fn debug_attr(lit_id: usize) -> Attribute {
    Attribute { path: Some("debug".to_string()), path_span: 40, meta: Meta::NameValue { span: 41, lit: Lit { id: lit_id, str_value: Some("0b{:08b}".to_string()) } } }
}

#[test]
fn phantom_only_parameters_get_no_bound() {
    // struct S<T, U, V> { a: PhantomData<T>, b: U, c: PhantomData<V>, d: Vec<V> }
    let fields = Fields::Named(vec![
        Field { ident: ident("a", 1), ty: generic_ty("PhantomData", 10, vec![plain_ty("T", 11)]), attrs: vec![] },
        Field { ident: ident("b", 2), ty: plain_ty("U", 12), attrs: vec![] },
        Field { ident: ident("c", 3), ty: generic_ty("PhantomData", 13, vec![plain_ty("V", 14)]), attrs: vec![] },
        Field { ident: ident("d", 4), ty: generic_ty("Vec", 15, vec![plain_ty("V", 16)]), attrs: vec![] },
    ]);
    let params = vec![ident("T", 5), ident("U", 6), ident("V", 7), ident("W", 8)];
    assert_eq!(add_debug_bound(&fields, &params), vec![false, true, true, true]);
}

#[test]
fn bare_identifier_arguments() {
    let t = generic_ty("HashMap", 1, vec![plain_ty("K", 2), generic_ty("Vec", 3, vec![plain_ty("V", 4)])]);
    match &t.path {
        Some(pe) => assert_eq!(extract_ty_idents(pe), vec!["K".to_string()]),
        None => unreachable!(),
    }
}

#[test]
fn named_field_entries() {
    let input = DeriveInput {
        ident: ident("Field", 1),
        type_params: vec![],
        data: Data::Struct(Fields::Named(vec![
            Field { ident: ident("name", 2), ty: plain_ty("String", 10), attrs: vec![] },
            Field { ident: ident("bitmask", 3), ty: plain_ty("u8", 11), attrs: vec![debug_attr(30)] },
        ])),
    };
    let plan = parse_derive_input(&input).unwrap();
    assert_eq!(plan.ident.name, "Field");
    assert!(matches!(&plan.entries[0], DebugEntry::Plain { field } if field.name == "name"));
    assert!(matches!(&plan.entries[1], DebugEntry::Formatted { field, format: 30 } if field.name == "bitmask"));
}

#[test]
fn tuple_and_unit_entries() {
    let input = DeriveInput { ident: ident("P", 1), type_params: vec![], data: Data::Struct(Fields::Unnamed(vec![plain_ty("u8", 2), plain_ty("u8", 3)])) };
    let plan = parse_derive_input(&input).unwrap();
    assert!(matches!(plan.entries[..], [DebugEntry::Positional { index: 0 }, DebugEntry::Positional { index: 1 }]));
    let input = DeriveInput { ident: ident("Q", 1), type_params: vec![], data: Data::Struct(Fields::Unit) };
    assert!(parse_derive_input(&input).unwrap().entries.is_empty());
}

#[test]
fn debug_attribute_errors() {
    let wrong_name = Attribute { path: Some("dbg".to_string()), path_span: 40, meta: Meta::Path { span: 41 } };
    let list = Attribute { path: Some("debug".to_string()), path_span: 42, meta: Meta::List { span: 43, last: None } };
    let invalid = Attribute { path: Some("debug".to_string()), path_span: 44, meta: Meta::Invalid { span: 45 } };
    let cases = [(wrong_name, DeriveErrorKind::ExpectedDebug, 40), (list, DeriveErrorKind::ExpectedNameValue, 43), (invalid, DeriveErrorKind::InvalidAttribute, 45)];
    for (attr, kind, span) in cases {
        let input = DeriveInput {
            ident: ident("S", 1),
            type_params: vec![],
            data: Data::Struct(Fields::Named(vec![Field { ident: ident("x", 2), ty: plain_ty("u8", 10), attrs: vec![attr] }])),
        };
        let e = parse_derive_input(&input).unwrap_err();
        assert_eq!((e.kind, e.span), (kind, span));
    }
}

#[test]
fn enums_and_unions_are_refused() {
    let e = parse_derive_input(&DeriveInput { ident: ident("E", 1), type_params: vec![], data: Data::Enum { token_span: 9 } }).unwrap_err();
    assert_eq!((e.kind, e.span), (DeriveErrorKind::EnumUnsupported, 9));
    let e = parse_derive_input(&DeriveInput { ident: ident("U", 1), type_params: vec![], data: Data::Union { token_span: 8 } }).unwrap_err();
    assert_eq!((e.kind, e.span), (DeriveErrorKind::UnionUnsupported, 8));
}
