use vstd::prelude::*;

use crate::token::Ident;

verus! {

/// A type as the derives read it. `id` is an opaque handle of the full type,
/// chosen by whoever built the value; `path` is the last segment of its path
/// when the type is a path, and `None` for any other type.
#[derive(Debug)]
pub struct Type {
    pub id: usize,
    pub path: Option<PathEnd>,
}

/// The last segment of a path type.
#[derive(Debug)]
pub struct PathEnd {
    pub ident: Ident,
    /// The whole path is this one identifier, with no generic arguments.
    pub single_ident: bool,
    /// The generic arguments in angle brackets, if the segment has them.
    pub args: Option<Vec<GenericArg>>,
}

/// A generic argument in angle brackets.
#[derive(Debug)]
pub enum GenericArg {
    Type(Type),
    /// A lifetime, a constant, a binding or a constraint.
    Other,
}

/// A literal as the derives read it: an opaque handle of the literal, and its
/// value when it is a string literal.
#[derive(Debug)]
pub struct Lit {
    pub id: usize,
    pub str_value: Option<String>,
}

/// One item inside `name(...)` of a list attribute.
#[derive(Debug)]
pub enum NestedMeta {
    /// `path = lit`; `path` is `Some` when the path is a single identifier.
    NameValue { path: Option<String>, lit: Lit },
    /// Any other item.
    Other,
}

/// What the contents of an attribute parse as. `span` is the position
/// handle of the whole form.
#[derive(Debug)]
pub enum Meta {
    /// A bare path: `#[name]`.
    Path { span: usize },
    /// `#[name(...)]`, with the last item inside the parentheses, if any.
    List { span: usize, last: Option<NestedMeta> },
    /// `#[name = lit]`.
    NameValue { span: usize, lit: Lit },
    /// The contents did not parse; `span` is where the parse failed.
    Invalid { span: usize },
}

/// An attribute on a field.
#[derive(Debug)]
pub struct Attribute {
    /// The attribute's name, when its path is a single identifier.
    pub path: Option<String>,
    pub path_span: usize,
    pub meta: Meta,
}

/// A named field.
#[derive(Debug)]
pub struct Field {
    pub ident: Ident,
    pub ty: Type,
    pub attrs: Vec<Attribute>,
}

/// The fields of a struct.
#[derive(Debug)]
pub enum Fields {
    Named(Vec<Field>),
    /// The types of the fields of a tuple struct.
    Unnamed(Vec<Type>),
    Unit,
}

/// The body of the item that a derive is applied to; `token_span` is the
/// position handle of the `enum` or `union` keyword.
#[derive(Debug)]
pub enum Data {
    Struct(Fields),
    Enum { token_span: usize },
    Union { token_span: usize },
}

/// The item that a derive is applied to: its name, the names of its type
/// parameters, and its body.
#[derive(Debug)]
pub struct DeriveInput {
    pub ident: Ident,
    pub type_params: Vec<Ident>,
    pub data: Data,
}

/// What went wrong in a derive.
#[derive(Clone, Copy, Debug, PartialEq, Eq, Structural)]
pub enum DeriveErrorKind {
    /// The derive was applied to an enum.
    EnumUnsupported,
    /// The derive was applied to a union.
    UnionUnsupported,
    /// The builder derive was applied to a struct without named fields.
    NamedFieldsRequired,
    /// A builder field attribute is not `builder(each = "...")`.
    ExpectedEach,
    /// `builder(each = "...")` stands on a field whose type is not `Vec<T>`.
    EachNeedsVec,
    /// A debug field attribute is not named `debug`.
    ExpectedDebug,
    /// A debug field attribute is not of the form `debug = "..."`.
    ExpectedNameValue,
    /// An attribute's contents do not parse.
    InvalidAttribute,
}

/// A positioned derive error.
#[derive(Clone, Copy, Debug, PartialEq, Eq, Structural)]
pub struct DeriveError {
    pub kind: DeriveErrorKind,
    pub span: usize,
}

/// Whether `s` spells `w`.
pub fn string_is(s: &String, w: &str) -> (r: bool)
    ensures
        r == (s@ == w@),
{
    let t = String::from_str(w);
    *s == t
}

/// `p` is present and spells `w`.
pub open spec fn names(p: Option<String>, w: Seq<char>) -> bool {
    p matches Some(n) && n@ == w
}

/// Whether `p` is present and spells `w`.
pub fn option_is(p: &Option<String>, w: &str) -> (r: bool)
    ensures
        r == names(*p, w@),
{
    match p {
        Some(n) => string_is(n, w),
        None => false,
    }
}

} // verus!
