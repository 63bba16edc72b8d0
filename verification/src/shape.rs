//! The shape of a type, as far as the generators for structs read it: the
//! segments of a path and the types between its angle brackets.

use vstd::prelude::*;

verus! {

/// A type: a path, or anything else.
#[derive(Debug, PartialEq, Eq)]
pub enum TypeShape {
    /// A path such as `Vec<T>` or `T::Item`.
    Path(TypePath),
    /// A reference, a tuple, an array or any other type that is no path.
    Other,
}

/// A path that names a type.
#[derive(Debug, PartialEq, Eq)]
pub struct TypePath {
    /// A handle by which the caller finds the path again in its own syntax
    /// tree. The library only hands it back.
    pub handle: u64,
    /// Whether the path begins with `::`.
    pub leading_colon: bool,
    /// The segments between the `::`.
    pub segments: Vec<Segment>,
}

/// One segment of a path: a name and what stands behind it.
#[derive(Debug, PartialEq, Eq)]
pub struct Segment {
    pub ident: String,
    pub arguments: Arguments,
}

/// What stands behind the name of a segment.
#[derive(Debug, PartialEq, Eq)]
pub enum Arguments {
    /// Nothing.
    Absent,
    /// Arguments in angle brackets, as in `Vec<T>`.
    AngleBracketed(Vec<GenericArg>),
    /// Arguments in parentheses, as in `Fn(A) -> B`.
    Parenthesized,
}

/// One argument between angle brackets.
#[derive(Debug, PartialEq, Eq)]
pub enum GenericArg {
    /// A type.
    Type(TypeShape),
    /// A lifetime, a constant or a binding.
    Other,
}

impl TypePath {
    /// Whether the path is the one word `ident`: one segment with that name
    /// and nothing behind it, and no `::` in front.
    pub open spec fn is_word(self, ident: Seq<char>) -> bool {
        &&& !self.leading_colon
        &&& self.segments@.len() == 1
        &&& self.segments@[0].arguments is Absent
        &&& self.segments@[0].ident@ == ident
    }

    /// Whether the path is the one word `ident`.
    pub fn is_ident(&self, ident: &String) -> (same: bool)
        ensures
            same == self.is_word(ident@),
    {
        if self.leading_colon || self.segments.len() != 1 {
            return false;
        }
        match &self.segments[0].arguments {
            Arguments::Absent => self.segments[0].ident == *ident,
            _ => false,
        }
    }
}

/// The type that `ty` wraps, where `ty` is a path of the one segment `name`
/// whose first argument in angle brackets is a type.
pub open spec fn wrapped(name: Seq<char>, ty: TypeShape) -> Option<TypeShape> {
    match ty {
        TypeShape::Path(path) => if path.segments@.len() == 1 && path.segments@[0].ident@
            == name {
            match path.segments@[0].arguments {
                Arguments::AngleBracketed(arguments) => if arguments@.len() > 0 {
                    match arguments@[0] {
                        GenericArg::Type(inner) => Some(inner),
                        GenericArg::Other => None,
                    }
                } else {
                    None
                },
                _ => None,
            }
        } else {
            None
        },
        TypeShape::Other => None,
    }
}

/// The type inside a wrapper such as `Option<T>` or `Vec<T>`: `T` where
/// `ty` is `name<T, ..>`, and nothing where `ty` is any other type.
pub fn inner_type<'a>(name: &String, ty: &'a TypeShape) -> (inner: Option<&'a TypeShape>)
    ensures
        match inner {
            Some(found) => wrapped(name@, *ty) == Some(*found),
            None => wrapped(name@, *ty) is None,
        },
{
    match ty {
        TypeShape::Path(path) => {
            if path.segments.len() != 1 || path.segments[0].ident != *name {
                return None;
            }
            match &path.segments[0].arguments {
                Arguments::AngleBracketed(arguments) => {
                    if arguments.len() == 0 {
                        return None;
                    }
                    match &arguments[0] {
                        GenericArg::Type(inner) => Some(inner),
                        GenericArg::Other => None,
                    }
                },
                _ => None,
            }
        },
        TypeShape::Other => None,
    }
}

} // verus!
