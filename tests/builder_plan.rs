use macro_workshop::builder::{
    extract_each_attr_value, extract_inner_type, functionize_field, missing_field_message,
    Assign, Init, Storage,
};
use macro_workshop::syntax::{
    Attribute, Data, DeriveErrorKind, DeriveInput, Field, Fields, GenericArg, Lit, Meta, NestedMeta,
    PathEnd, Type,
};
use macro_workshop::token::Ident;

fn ident(name: &str, span: usize) -> Ident {
    Ident { name: name.to_string(), span }
}

fn plain_ty(name: &str, id: usize) -> Type {
    Type { id, path: Some(PathEnd { ident: ident(name, id), single_ident: true, args: None }) }
}

fn generic_ty(name: &str, id: usize, arg: Type) -> Type {
    Type {
        id,
        path: Some(PathEnd { ident: ident(name, id), single_ident: false, args: Some(vec![GenericArg::Type(arg)]) }),
    }
}

fn field(name: &str, span: usize, ty: Type, attrs: Vec<Attribute>) -> Field {
    Field { ident: ident(name, span), ty, attrs }
}

fn each_attr(path: &str, value: &str) -> Attribute {
    Attribute {
        path: Some("builder".to_string()),
        path_span: 50,
        meta: Meta::List {
            span: 51,
            last: Some(NestedMeta::NameValue {
                path: Some(path.to_string()),
                lit: Lit { id: 52, str_value: Some(value.to_string()) },
            }),
        },
    }
}

fn command(fields: Vec<Field>) -> DeriveInput {
    DeriveInput { ident: ident("Command", 1), type_params: vec![], data: Data::Struct(Fields::Named(fields)) }
}

#[test]
fn build_reports_first_unset_required_field() {
    let input = command(vec![
        field("name", 10, plain_ty("String", 20), vec![]),
        field("id", 11, generic_ty("Option", 21, plain_ty("i32", 22)), vec![]),
    ]);
    let plan = macro_workshop::builder::derive(&input).unwrap();
    assert_eq!(plan.builder_name, "CommandBuilder");
    assert_eq!(plan.fields[0].assign, Assign::Required);
    assert_eq!(plan.fields[1].assign, Assign::CopyOptional);
    assert_eq!(plan.first_missing(&vec![false, false]), Some(0));
    assert_eq!(plan.fields[0].ident.name, "name");
    assert_eq!(missing_field_message(&plan.fields[0].ident.name), "field `name` was not set");
    assert_eq!(plan.first_missing(&vec![true, false]), None);
}

#[test]
fn builder_field_kinds() {
    let input = command(vec![
        field("args", 10, generic_ty("Vec", 20, plain_ty("String", 21)), vec![]),
        field("env", 11, generic_ty("Option", 22, plain_ty("String", 23)), vec![]),
        field("items", 12, generic_ty("Vec", 24, plain_ty("String", 25)), vec![each_attr("each", "item")]),
    ]);
    let plan = macro_workshop::builder::derive(&input).unwrap();
    assert_eq!(plan.fields[0].init, Init::Unset);
    assert_eq!(plan.fields[0].storage, Storage::WrappedInOption);
    assert_eq!(plan.fields[1].init, Init::Unset);
    assert_eq!(plan.fields[1].storage, Storage::AsDeclared);
    assert_eq!(plan.fields[2].init, Init::EmptyVec);
    assert_eq!(plan.fields[1].setters[0].arg_ty, 23);
    assert_eq!(plan.fields[0].setters[0].arg_ty, 20);
}

#[test]
fn unset_vec_field_is_missing_but_repeated_field_is_not() {
    let input = command(vec![
        field("args", 10, generic_ty("Vec", 20, plain_ty("String", 21)), vec![]),
        field("items", 12, generic_ty("Vec", 24, plain_ty("String", 25)), vec![each_attr("each", "item")]),
    ]);
    let plan = macro_workshop::builder::derive(&input).unwrap();
    assert_eq!(plan.first_missing(&vec![false, false]), Some(0));
    assert_eq!(plan.first_missing(&vec![true, false]), None);
}

#[test]
fn each_attribute_setters() {
    let f = field("args", 10, generic_ty("Vec", 20, plain_ty("String", 21)), vec![each_attr("each", "arg")]);
    let s = functionize_field(&f).unwrap();
    assert_eq!(s.len(), 2);
    assert_eq!((s[0].method.as_str(), s[0].appends, s[0].arg_ty), ("args", false, 20));
    assert_eq!((s[1].method.as_str(), s[1].field.as_str(), s[1].appends, s[1].arg_ty), ("arg", "args", true, 21));
    let f = field("env", 10, generic_ty("Vec", 20, plain_ty("String", 21)), vec![each_attr("each", "env")]);
    let s = functionize_field(&f).unwrap();
    assert_eq!(s.len(), 1);
    assert!(s[0].appends);
}

#[test]
fn malformed_each_attribute() {
    let f = field("args", 10, generic_ty("Vec", 20, plain_ty("String", 21)), vec![each_attr("eac", "arg")]);
    let e = functionize_field(&f).unwrap_err();
    assert_eq!((e.kind, e.span), (DeriveErrorKind::ExpectedEach, 51));
    let e = macro_workshop::builder::derive(&command(vec![f])).unwrap_err();
    assert_eq!(e.kind, DeriveErrorKind::ExpectedEach);
    let doc = Attribute { path: Some("doc".to_string()), path_span: 60, meta: Meta::NameValue { span: 61, lit: Lit { id: 62, str_value: None } } };
    let e = extract_each_attr_value(&vec![doc]).unwrap_err();
    assert_eq!((e.kind, e.span), (DeriveErrorKind::ExpectedEach, 60));
    assert_eq!(extract_each_attr_value(&vec![each_attr("each", "x")]).unwrap(), "x");
}

#[test]
fn each_attribute_needs_vec_field() {
    let f = field("name", 10, plain_ty("String", 20), vec![each_attr("each", "n")]);
    let e = functionize_field(&f).unwrap_err();
    assert_eq!((e.kind, e.span), (DeriveErrorKind::EachNeedsVec, 10));
}

#[test]
fn unsupported_shapes() {
    let e = macro_workshop::builder::derive(&DeriveInput { ident: ident("E", 1), type_params: vec![], data: Data::Enum { token_span: 2 } }).unwrap_err();
    assert_eq!((e.kind, e.span), (DeriveErrorKind::EnumUnsupported, 2));
    let e = macro_workshop::builder::derive(&DeriveInput { ident: ident("U", 1), type_params: vec![], data: Data::Union { token_span: 3 } }).unwrap_err();
    assert_eq!((e.kind, e.span), (DeriveErrorKind::UnionUnsupported, 3));
    let e = macro_workshop::builder::derive(&DeriveInput { ident: ident("T", 4), type_params: vec![], data: Data::Struct(Fields::Unit) }).unwrap_err();
    assert_eq!((e.kind, e.span), (DeriveErrorKind::NamedFieldsRequired, 4));
}

#[test]
fn inner_type_extraction() {
    let t = generic_ty("Option", 1, plain_ty("u8", 2));
    assert_eq!(extract_inner_type(&t, "Option").map(|x| x.id), Some(2));
    assert!(extract_inner_type(&t, "Vec").is_none());
    assert!(extract_inner_type(&plain_ty("Option", 3), "Option").is_none());
}
