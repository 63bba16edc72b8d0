//! What the builder generator decides for each field of a struct: how the
//! builder stores the field, what it starts with, which method sets it and
//! what `build` does with it.

use vstd::prelude::*;
use vstd::string::StringExecFns;
use crate::shape::inner_type;
use crate::shape::wrapped;
use crate::shape::TypeShape;

verus! {

/// What the `builder(...)` attribute of a field says.
#[derive(Clone, Debug, PartialEq, Eq)]
pub enum BuilderAttr {
    /// The field has no such attribute.
    Absent,
    /// `builder(each = "name")`: the field is filled one item at a time by a
    /// method of that name.
    Each(String),
    /// The attribute is there, but it does not say `each = "..."`.
    Malformed,
}

/// How the builder stores a field.
#[derive(Clone, Copy, Debug, PartialEq, Eq, Structural)]
pub enum Storage {
    /// With the field's own type.
    Declared,
    /// In an `Option` of the field's type.
    Optional,
}

/// What a field of a new builder holds.
#[derive(Clone, Copy, Debug, PartialEq, Eq, Structural)]
pub enum Initial {
    /// An empty vector.
    EmptyVec,
    /// `None`.
    Nothing,
}

/// The method that the builder gets for a field.
#[derive(Clone, Copy, Debug, PartialEq, Eq, Structural)]
pub enum Method {
    /// A setter that takes the field's own type.
    Setter,
    /// A setter that takes the type inside the field's `Option`.
    SetterOfInner,
    /// A method that pushes one item; its name is the `each` of the
    /// attribute.
    Extender,
    /// No method, but the error that the attribute is malformed.
    Rejected,
}

/// What `build` does with a field.
#[derive(Clone, Copy, Debug, PartialEq, Eq, Structural)]
pub enum Build {
    /// It clones what the builder holds.
    Cloned,
    /// It takes the value out of the `Option`, and fails where the field was
    /// never set.
    Required,
}

/// What is generated for one field.
#[derive(Clone, Copy, Debug, PartialEq, Eq)]
pub struct FieldPlan {
    pub storage: Storage,
    pub initial: Initial,
    pub method: Method,
    pub build: Build,
}

/// Whether `ty` is `Option` of some type.
pub open spec fn is_option(ty: TypeShape) -> bool {
    wrapped("Option"@, ty) is Some
}

/// Whether `ty` is `Vec` of some type.
pub open spec fn is_vec(ty: TypeShape) -> bool {
    wrapped("Vec"@, ty) is Some
}

/// The method for a field with a `builder(...)` attribute, or `None` where
/// the field gets a plain setter after all: an `each` on a field that is no
/// `Vec`.
pub open spec fn ext_method(ty: TypeShape, attr: BuilderAttr) -> Option<Method> {
    match attr {
        BuilderAttr::Absent => None,
        BuilderAttr::Each(_) => if is_vec(ty) {
            Some(Method::Extender)
        } else {
            None
        },
        BuilderAttr::Malformed => Some(Method::Rejected),
    }
}

/// What is generated for a field of type `ty` with the attribute `attr`.
///
/// A field that is an `Option`, or that has the attribute, is stored as it
/// is declared and cloned by `build`; any other field is stored in an
/// `Option` and required by `build`. Only a `Vec` with the attribute starts
/// as an empty vector.
pub open spec fn plan_of(ty: TypeShape, attr: BuilderAttr) -> FieldPlan {
    let direct = is_option(ty) || !(attr is Absent);
    FieldPlan {
        storage: if direct {
            Storage::Declared
        } else {
            Storage::Optional
        },
        initial: if !(attr is Absent) && is_vec(ty) {
            Initial::EmptyVec
        } else {
            Initial::Nothing
        },
        method: match ext_method(ty, attr) {
            Some(method) => method,
            None => if is_option(ty) {
                Method::SetterOfInner
            } else {
                Method::Setter
            },
        },
        build: if direct {
            Build::Cloned
        } else {
            Build::Required
        },
    }
}

/// Decides on the method for a field with a `builder(...)` attribute.
pub fn builder_ext_method(ty: &TypeShape, attr: &BuilderAttr) -> (method: Option<Method>)
    ensures
        method == ext_method(*ty, *attr),
{
    match attr {
        BuilderAttr::Absent => None,
        BuilderAttr::Each(_) => {
            let vec = "Vec".to_owned();
            match inner_type(&vec, ty) {
                Some(_) => Some(Method::Extender),
                None => None,
            }
        },
        BuilderAttr::Malformed => Some(Method::Rejected),
    }
}

/// Decides what is generated for one field.
pub fn plan_field(ty: &TypeShape, attr: &BuilderAttr) -> (plan: FieldPlan)
    ensures
        plan == plan_of(*ty, *attr),
{
    let option = "Option".to_owned();
    let vec = "Vec".to_owned();
    let optional = inner_type(&option, ty).is_some();
    let repeated = inner_type(&vec, ty).is_some();
    let marked = match attr {
        BuilderAttr::Absent => false,
        _ => true,
    };
    let direct = optional || marked;
    FieldPlan {
        storage: if direct {
            Storage::Declared
        } else {
            Storage::Optional
        },
        initial: if marked && repeated {
            Initial::EmptyVec
        } else {
            Initial::Nothing
        },
        method: match builder_ext_method(ty, attr) {
            Some(method) => method,
            None => if optional {
                Method::SetterOfInner
            } else {
                Method::Setter
            },
        },
        build: if direct {
            Build::Cloned
        } else {
            Build::Required
        },
    }
}

/// The name of the builder for the struct `name`.
pub fn builder_name(name: &str) -> (builder: String)
    ensures
        builder@ == name@ + "Builder"@,
{
    let mut builder = name.to_owned();
    builder.append("Builder");
    builder
}

/// The documentation line of the builder for the struct `name`.
pub fn builder_doc(name: &str) -> (doc: String)
    ensures
        doc@ == "Implements the builder pattern for `"@ + name@ + "`"@,
{
    let mut doc = "Implements the builder pattern for `".to_owned();
    doc.append(name);
    doc.append("`");
    doc
}

/// The error of `build` for a required field that was never set.
pub fn not_set(field: &str) -> (message: String)
    ensures
        message@ == field@ + " not set"@,
{
    let mut message = field.to_owned();
    message.append(" not set");
    message
}

/// The error for a `builder(...)` attribute that does not say
/// `each = "..."`.
pub fn expected_each() -> (message: String)
    ensures
        message@ == "expected `builder(each = \"...\")`"@,
{
    "expected `builder(each = \"...\")`".to_owned()
}

} // verus!
