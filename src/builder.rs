use vstd::prelude::*;

use crate::syntax::{
    names, option_is, string_is, Attribute, Data, DeriveError, DeriveErrorKind, DeriveInput,
    Field, Fields, GenericArg, Meta, NestedMeta, Type,
};
use crate::token::Ident;

verus! {

/// The last generic argument of `ty` when `ty` is a path whose last segment
/// is `name<...>` and that argument is a type.
pub open spec fn inner_type(ty: Type, name: Seq<char>) -> Option<Type> {
    match ty.path {
        Some(pe) => {
            if pe.ident.name@ == name && pe.args is Some && pe.args->0@.len() > 0
                && pe.args->0@.last() is Type {
                Some(pe.args->0@.last()->Type_0)
            } else {
                None
            }
        },
        None => None,
    }
}

/// The type argument of `ty` when `ty` is `expected<..., T>`.
pub fn extract_inner_type<'t>(ty: &'t Type, expected: &str) -> (r: Option<&'t Type>)
    ensures
        match r {
            Some(t) => inner_type(*ty, expected@) == Some(*t),
            None => inner_type(*ty, expected@) is None,
        },
{
    match &ty.path {
        Some(pe) => {
            if !string_is(&pe.ident.name, expected) {
                return None;
            }
            match &pe.args {
                Some(args) => {
                    if args.len() == 0 {
                        return None;
                    }
                    match &args[args.len() - 1] {
                        GenericArg::Type(t) => Some(t),
                        GenericArg::Other => None,
                    }
                },
                None => None,
            }
        },
        None => None,
    }
}

/// How a builder starts out holding a field.
#[derive(Clone, Copy, Debug, PartialEq, Eq, Structural)]
pub enum Init {
    /// Not set.
    Unset,
    /// Set to an empty vector.
    EmptyVec,
}

/// The type under which a builder holds a field.
#[derive(Clone, Copy, Debug, PartialEq, Eq, Structural)]
pub enum Storage {
    /// The field's own type, which is already an `Option`.
    AsDeclared,
    /// The field's type wrapped in `Option`.
    WrappedInOption,
}

/// How `build` takes a field from the builder.
#[derive(Clone, Copy, Debug, PartialEq, Eq, Structural)]
pub enum Assign {
    /// Copied as it is: an `Option` field is never required.
    CopyOptional,
    /// Required: `build` fails with a "not set" error where it is missing.
    Required,
}

pub open spec fn is_option(f: Field) -> bool {
    inner_type(f.ty, "Option"@) is Some
}

/// A field is repeated when it carries a well-formed `builder(each = "...")`.
pub open spec fn is_repeated(f: Field) -> bool {
    f.attrs@.len() > 0 && each_value(f.attrs@) is Ok
}

pub open spec fn init_of(f: Field) -> Init {
    if is_repeated(f) { Init::EmptyVec } else { Init::Unset }
}

pub open spec fn storage_of(f: Field) -> Storage {
    if is_option(f) { Storage::AsDeclared } else { Storage::WrappedInOption }
}

pub open spec fn assign_of(f: Field) -> Assign {
    if is_option(f) { Assign::CopyOptional } else { Assign::Required }
}

/// A field's initial value in a new builder: an empty vector for a repeated
/// field, one with `builder(each = "...")`; every other field starts unset.
pub fn initialize_field(f: &Field) -> (r: Init)
    ensures
        r == init_of(*f),
{
    if f.attrs.len() > 0 && extract_each_attr_value(&f.attrs).is_ok() {
        Init::EmptyVec
    } else {
        Init::Unset
    }
}

/// A field's type in the builder: `Option<T>` for a field of type `T`, and
/// the field's own type where that is already an `Option`.
pub fn optionize_field(f: &Field) -> (r: Storage)
    ensures
        r == storage_of(*f),
{
    if extract_inner_type(&f.ty, "Option").is_some() {
        Storage::AsDeclared
    } else {
        Storage::WrappedInOption
    }
}

/// How `build` takes a field: an `Option` field as it is, any other as a
/// required value.
pub fn assign_field(f: &Field) -> (r: Assign)
    ensures
        r == assign_of(*f),
{
    if extract_inner_type(&f.ty, "Option").is_some() {
        Assign::CopyOptional
    } else {
        Assign::Required
    }
}

/// A setter method of the builder: `method` sets (or, where `appends`, pushes
/// one element onto) field `field`, taking an argument of type `arg_ty`.
#[derive(Debug)]
pub struct Setter {
    pub method: String,
    pub field: String,
    pub arg_ty: usize,
    pub appends: bool,
}

pub struct SetterView {
    pub method: Seq<char>,
    pub field: Seq<char>,
    pub arg_ty: usize,
    pub appends: bool,
}

impl Setter {
    pub open spec fn view(&self) -> SetterView {
        SetterView { method: self.method@, field: self.field@, arg_ty: self.arg_ty, appends: self.appends }
    }
}

pub open spec fn setters_view(s: Seq<Setter>) -> Seq<SetterView> {
    s.map_values(|x: Setter| x@)
}

/// The setter that sets the whole field.
pub fn once_setter(field_name: &Ident, field_type: &Type) -> (r: Setter)
    ensures
        r@ == (SetterView {
            method: field_name.name@,
            field: field_name.name@,
            arg_ty: field_type.id,
            appends: false,
        }),
{
    Setter {
        method: field_name.name.clone(),
        field: field_name.name.clone(),
        arg_ty: field_type.id,
        appends: false,
    }
}

/// The setter `method_name` that pushes one element onto the field.
pub fn each_setter(method_name: &String, field_name: &Ident, field_type: &Type) -> (r: Setter)
    ensures
        r@ == (SetterView {
            method: method_name@,
            field: field_name.name@,
            arg_ty: field_type.id,
            appends: true,
        }),
{
    Setter {
        method: method_name.clone(),
        field: field_name.name.clone(),
        arg_ty: field_type.id,
        appends: true,
    }
}

/// The name given by the last attribute, which must read
/// `builder(each = "name")`.
pub open spec fn each_value(attrs: Seq<Attribute>) -> Result<Seq<char>, DeriveError> {
    let a = attrs.last();
    match a.meta {
        Meta::List { span, last } => {
            if !names(a.path, "builder"@) {
                Err(DeriveError { kind: DeriveErrorKind::ExpectedEach, span: a.path_span })
            } else {
                match last {
                    Some(NestedMeta::NameValue { path, lit }) => {
                        if lit.str_value is Some && names(path, "each"@) {
                            Ok(lit.str_value->0@)
                        } else {
                            Err(DeriveError { kind: DeriveErrorKind::ExpectedEach, span })
                        }
                    },
                    _ => Err(DeriveError { kind: DeriveErrorKind::ExpectedEach, span }),
                }
            }
        },
        _ => Err(DeriveError { kind: DeriveErrorKind::ExpectedEach, span: a.path_span }),
    }
}

/// Reads the name of the one-element setter from the last attribute of a
/// field, `builder(each = "name")`.
pub fn extract_each_attr_value(attrs: &Vec<Attribute>) -> (r: Result<String, DeriveError>)
    requires
        attrs@.len() > 0,
    ensures
        match r {
            Ok(v) => each_value(attrs@) == Ok::<Seq<char>, DeriveError>(v@),
            Err(e) => each_value(attrs@) == Err::<Seq<char>, DeriveError>(e),
        },
{
    proof {
        reveal_strlit("builder");
        reveal_strlit("each");
    }
    let a = &attrs[attrs.len() - 1];
    match &a.meta {
        Meta::List { span, last } => {
            if !option_is(&a.path, "builder") {
                return Err(DeriveError { kind: DeriveErrorKind::ExpectedEach, span: a.path_span });
            }
            match last {
                Some(NestedMeta::NameValue { path, lit }) => {
                    match &lit.str_value {
                        Some(v) => {
                            if option_is(path, "each") {
                                Ok(v.clone())
                            } else {
                                Err(DeriveError { kind: DeriveErrorKind::ExpectedEach, span: *span })
                            }
                        },
                        None => Err(DeriveError { kind: DeriveErrorKind::ExpectedEach, span: *span }),
                    }
                },
                _ => Err(DeriveError { kind: DeriveErrorKind::ExpectedEach, span: *span }),
            }
        },
        _ => Err(DeriveError { kind: DeriveErrorKind::ExpectedEach, span: a.path_span }),
    }
}

/// The type that the whole-field setter takes: `T` for a field of type
/// `Option<T>`, else the field's type.
pub open spec fn setter_type(f: Field) -> Type {
    match inner_type(f.ty, "Option"@) {
        Some(t) => t,
        None => f.ty,
    }
}

/// The setters of a field: the whole-field setter; where the field carries
/// `builder(each = "name")` (a `Vec` field), the one-element setter `name`,
/// alone where `name` is the field's own name, else after the whole-field one.
pub open spec fn field_setters(f: Field) -> Result<Seq<SetterView>, DeriveError> {
    let st = setter_type(f);
    let once = SetterView { method: f.ident.name@, field: f.ident.name@, arg_ty: st.id, appends: false };
    if f.attrs@.len() == 0 {
        Ok(seq![once])
    } else {
        match each_value(f.attrs@) {
            Err(e) => Err(e),
            Ok(v) => match inner_type(st, "Vec"@) {
                None => Err(DeriveError { kind: DeriveErrorKind::EachNeedsVec, span: f.ident.span }),
                Some(elem) => {
                    let each = SetterView { method: v, field: f.ident.name@, arg_ty: elem.id, appends: true };
                    if v == f.ident.name@ {
                        Ok(seq![each])
                    } else {
                        Ok(seq![once, each])
                    }
                },
            },
        }
    }
}

/// The setter methods that the builder has for field `f`.
pub fn functionize_field(f: &Field) -> (r: Result<Vec<Setter>, DeriveError>)
    ensures
        match r {
            Ok(s) => field_setters(*f) == Ok::<Seq<SetterView>, DeriveError>(setters_view(s@)),
            Err(e) => field_setters(*f) == Err::<Seq<SetterView>, DeriveError>(e),
        },
{
    proof {
        reveal_strlit("Vec");
    }
    let field_type = match extract_inner_type(&f.ty, "Option") {
        Some(inner) => inner,
        None => &f.ty,
    };
    let once = once_setter(&f.ident, field_type);
    if f.attrs.len() == 0 {
        let r = vec![once];
        assert(setters_view(r@) =~= seq![once@]);
        return Ok(r);
    }
    let name = match extract_each_attr_value(&f.attrs) {
        Ok(v) => v,
        Err(e) => return Err(e),
    };
    let elem = match extract_inner_type(field_type, "Vec") {
        Some(t) => t,
        None => return Err(DeriveError { kind: DeriveErrorKind::EachNeedsVec, span: f.ident.span }),
    };
    let each = each_setter(&name, &f.ident, elem);
    if name == f.ident.name {
        let r = vec![each];
        assert(setters_view(r@) =~= seq![each@]);
        Ok(r)
    } else {
        let r = vec![once, each];
        assert(setters_view(r@) =~= seq![once@, each@]);
        Ok(r)
    }
}

/// What the builder does with one field.
#[derive(Debug)]
pub struct FieldPlan {
    pub ident: Ident,
    /// The handle of the field's declared type.
    pub ty: usize,
    pub init: Init,
    pub storage: Storage,
    pub assign: Assign,
    pub setters: Vec<Setter>,
}

/// The builder generated for a struct: the struct's name, the builder's
/// name, and one plan per field in declaration order.
#[derive(Debug)]
pub struct BuilderPlan {
    pub ident: Ident,
    pub builder_name: String,
    pub fields: Vec<FieldPlan>,
}

/// `p` is the plan of field `f`.
pub open spec fn plans_field(p: FieldPlan, f: Field) -> bool {
    &&& p.ident.name@ == f.ident.name@
    &&& p.ident.span == f.ident.span
    &&& p.ty == f.ty.id
    &&& p.init == init_of(f)
    &&& p.storage == storage_of(f)
    &&& p.assign == assign_of(f)
    &&& field_setters(f) == Ok::<Seq<SetterView>, DeriveError>(setters_view(p.setters@))
}

/// The plan of one field, or the error in its attributes.
pub fn plan_field(f: &Field) -> (r: Result<FieldPlan, DeriveError>)
    ensures
        match r {
            Ok(p) => plans_field(p, *f),
            Err(e) => field_setters(*f) == Err::<Seq<SetterView>, DeriveError>(e),
        },
{
    let setters = match functionize_field(f) {
        Ok(s) => s,
        Err(e) => return Err(e),
    };
    Ok(
        FieldPlan {
            ident: f.ident.copy(),
            ty: f.ty.id,
            init: initialize_field(f),
            storage: optionize_field(f),
            assign: assign_field(f),
            setters,
        },
    )
}

/// The error of the first field, in declaration order, whose setters cannot
/// be made.
pub open spec fn first_field_error(fields: Seq<Field>, e: DeriveError) -> bool {
    exists|k: int|
        0 <= k < fields.len() && field_setters(fields[k]) == Err::<Seq<SetterView>, DeriveError>(e)
            && forall|j: int| 0 <= j < k ==> #[trigger] field_setters(fields[j]) is Ok
}

/// The builder derive: for a struct with named fields, the plan of its
/// builder, `<Name>Builder`; the error of the first field whose attribute is
/// malformed; or an error for an enum, a union, or a struct without named
/// fields.
pub fn derive(input: &DeriveInput) -> (r: Result<BuilderPlan, DeriveError>)
    ensures
        match input.data {
            Data::Enum { token_span } => r == Err::<BuilderPlan, DeriveError>(
                DeriveError { kind: DeriveErrorKind::EnumUnsupported, span: token_span },
            ),
            Data::Union { token_span } => r == Err::<BuilderPlan, DeriveError>(
                DeriveError { kind: DeriveErrorKind::UnionUnsupported, span: token_span },
            ),
            Data::Struct(Fields::Named(fields)) => match r {
                Ok(plan) => {
                    &&& plan.ident.name@ == input.ident.name@
                    &&& plan.ident.span == input.ident.span
                    &&& plan.builder_name@ == input.ident.name@ + "Builder"@
                    &&& plan.fields@.len() == fields@.len()
                    &&& forall|k: int|
                        0 <= k < fields@.len() ==> plans_field(
                            #[trigger] plan.fields@[k],
                            fields@[k],
                        )
                },
                Err(e) => first_field_error(fields@, e),
            },
            Data::Struct(_) => r == Err::<BuilderPlan, DeriveError>(
                DeriveError { kind: DeriveErrorKind::NamedFieldsRequired, span: input.ident.span },
            ),
        },
{
    let fields = match &input.data {
        Data::Enum { token_span } => {
            return Err(DeriveError { kind: DeriveErrorKind::EnumUnsupported, span: *token_span });
        },
        Data::Union { token_span } => {
            return Err(DeriveError { kind: DeriveErrorKind::UnionUnsupported, span: *token_span });
        },
        Data::Struct(Fields::Named(fields)) => fields,
        Data::Struct(_) => {
            return Err(
                DeriveError { kind: DeriveErrorKind::NamedFieldsRequired, span: input.ident.span },
            );
        },
    };
    let mut plans: Vec<FieldPlan> = Vec::new();
    let mut k: usize = 0;
    while k < fields.len()
        invariant
            input.data == Data::Struct(Fields::Named(*fields)),
            k <= fields@.len(),
            plans@.len() == k,
            forall|j: int| 0 <= j < k ==> plans_field(#[trigger] plans@[j], fields@[j]),
        decreases fields@.len() - k,
    {
        match plan_field(&fields[k]) {
            Ok(p) => plans.push(p),
            Err(e) => {
                assert forall|j: int| 0 <= j < k implies #[trigger] field_setters(fields@[j]) is Ok by {
                    assert(plans_field(plans@[j], fields@[j]));
                }
                return Err(e);
            },
        }
        k = k + 1;
    }
    proof {
        reveal_strlit("Builder");
    }
    let mut builder_name = input.ident.name.clone();
    builder_name.append("Builder");
    Ok(BuilderPlan { ident: input.ident.copy(), builder_name, fields: plans })
}

/// Field `k` is required by `build`, does not start as an empty vector, and
/// was not given.
pub open spec fn missing(plan: BuilderPlan, given: Seq<bool>, k: int) -> bool {
    &&& 0 <= k < plan.fields@.len()
    &&& plan.fields@[k].assign == Assign::Required
    &&& plan.fields@[k].init == Init::Unset
    &&& !given[k]
}

impl BuilderPlan {
    /// The field that `build` reports as not set, where `given[k]` tells
    /// whether field `k` was given a value: the first required field in
    /// declaration order that was not, leaving out repeated fields, which
    /// start as an empty vector; `None` where `build` succeeds. An `Option`
    /// field is never required.
    pub fn first_missing(&self, given: &Vec<bool>) -> (r: Option<usize>)
        requires
            given@.len() == self.fields@.len(),
        ensures
            match r {
                Some(k) => missing(*self, given@, k as int) && forall|j: int|
                    0 <= j < k ==> !missing(*self, given@, j),
                None => forall|j: int| !missing(*self, given@, j),
            },
    {
        let mut k: usize = 0;
        while k < self.fields.len()
            invariant
                given@.len() == self.fields@.len(),
                k <= self.fields@.len(),
                forall|j: int| 0 <= j < k ==> !missing(*self, given@, j),
            decreases self.fields@.len() - k,
        {
            if self.fields[k].assign == Assign::Required && self.fields[k].init == Init::Unset
                && !given[k] {
                return Some(k);
            }
            k = k + 1;
        }
        None
    }
}

/// An `Option` field is never required: whatever fields were given, `build`
/// never reports the field at `k` of a planned struct as missing when that
/// field's declared type is `Option<T>`.
pub proof fn law_option_fields_never_required(
    input: DeriveInput,
    fields: Vec<Field>,
    plan: BuilderPlan,
    given: Seq<bool>,
    k: int,
)
    requires
        input.data == Data::Struct(Fields::Named(fields)),
        plan.fields@.len() == fields@.len(),
        forall|j: int| 0 <= j < fields@.len() ==> plans_field(#[trigger] plan.fields@[j], fields@[j]),
        0 <= k < fields@.len(),
        is_option(fields@[k]),
    ensures
        !missing(plan, given, k),
{
    assert(plans_field(plan.fields@[k], fields@[k]));
}

/// The error that `build` returns for a required field `name` that was not
/// set: ``"field `<name>` was not set"``.
pub fn missing_field_message(name: &String) -> (r: String)
    ensures
        r@ == "field `"@ + name@ + "` was not set"@,
{
    let mut m = String::from_str("field `");
    m.append(name.as_str());
    m.append("` was not set");
    m
}

} // verus!
