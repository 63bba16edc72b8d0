//! Which trait bounds the formatter generator adds to a struct: where the
//! type of a field uses a type parameter, and which associated types of the
//! parameter stand in the fields.

use vstd::prelude::*;
use crate::shape::Arguments;
use crate::shape::GenericArg;
use crate::shape::Segment;
use crate::shape::TypePath;
use crate::shape::TypeShape;

verus! {

/// What was found of one type parameter.
pub struct State<'a> {
    /// Whether the parameter itself is the type of something.
    pub type_param_used: bool,
    /// The paths that begin with the parameter and go on, such as
    /// `T::Item`, in the order in which they were met.
    pub assoc_types: Vec<&'a TypePath>,
}

/// What a [`State`] stands for in contracts.
pub struct Finding {
    pub used: bool,
    pub assoc: Seq<TypePath>,
}

impl Finding {
    /// Nothing found.
    pub open spec fn nothing() -> Finding {
        Finding { used: false, assoc: Seq::empty() }
    }

    /// What two findings say together: the parameter is used where either
    /// says so, and the paths of the second follow those of the first.
    pub open spec fn merge(self, other: Finding) -> Finding {
        Finding { used: self.used || other.used, assoc: self.assoc + other.assoc }
    }
}

impl<'a> View for State<'a> {
    type V = Finding;

    open spec fn view(&self) -> Finding {
        Finding {
            used: self.type_param_used,
            assoc: Seq::new(self.assoc_types@.len(), |i: int| *self.assoc_types@[i]),
        }
    }
}

impl<'a> Default for State<'a> {
    /// Nothing found.
    fn default() -> (state: State<'a>)
        ensures
            state@ == Finding::nothing(),
    {
        State::new()
    }
}

impl<'a> State<'a> {
    /// Nothing found.
    pub fn new() -> (state: State<'a>)
        ensures
            state@ == Finding::nothing(),
    {
        let state = State { type_param_used: false, assoc_types: Vec::new() };
        assert(state@.assoc =~= Seq::<TypePath>::empty());
        state
    }

    /// Combine two states: the paths of `other` are moved behind those of
    /// `self`.
    pub fn merge(self, other: &mut Self) -> (merged: Self)
        ensures
            merged@ == self@.merge(old(other)@),
            final(other).type_param_used == old(other).type_param_used,
            final(other).assoc_types@ == Seq::<&'a TypePath>::empty(),
    {
        let mut merged = self;
        merged.type_param_used = merged.type_param_used || other.type_param_used;
        merged.assoc_types.append(&mut other.assoc_types);
        assert(merged@.assoc =~= self@.assoc + old(other)@.assoc);
        merged
    }
}

/// What the type `ty` shows of the parameter `param`.
pub open spec fn in_type(ty: TypeShape, param: Seq<char>) -> Finding
    decreases ty, 0nat,
{
    match ty {
        TypeShape::Path(path) => in_path(path, param),
        TypeShape::Other => Finding::nothing(),
    }
}

/// What the path `path` shows of the parameter `param`: the path is the
/// parameter, or it is an associated type of the parameter, or its
/// arguments are searched, but for those of `PhantomData`.
pub open spec fn in_path(path: TypePath, param: Seq<char>) -> Finding
    decreases path, 0nat,
{
    if path.is_word(param) {
        Finding { used: true, assoc: Seq::empty() }
    } else if path.segments@.len() > 1 && path.segments@[0].ident@ == param {
        Finding { used: false, assoc: seq![path] }
    } else {
        in_segments(path.segments@, path.segments@.len() as int, param)
    }
}

/// What the first `n` of `segments` show of the parameter `param`.
pub open spec fn in_segments(segments: Seq<Segment>, n: int, param: Seq<char>) -> Finding
    decreases segments, n,
{
    if n <= 0 || n > segments.len() {
        Finding::nothing()
    } else {
        in_segments(segments, n - 1, param).merge(
            if segments[n - 1].ident@ == "PhantomData"@ {
                Finding::nothing()
            } else {
                in_arguments(segments[n - 1].arguments, param)
            },
        )
    }
}

/// What the arguments of a segment show of the parameter `param`: only
/// types between angle brackets are searched.
pub open spec fn in_arguments(arguments: Arguments, param: Seq<char>) -> Finding
    decreases arguments, 0nat,
{
    match arguments {
        Arguments::AngleBracketed(list) => in_list(list@, list@.len() as int, param),
        _ => Finding::nothing(),
    }
}

/// What the first `n` arguments of `list` show of the parameter `param`.
pub open spec fn in_list(list: Seq<GenericArg>, n: int, param: Seq<char>) -> Finding
    decreases list, n,
{
    if n <= 0 || n > list.len() {
        Finding::nothing()
    } else {
        in_list(list, n - 1, param).merge(
            match list[n - 1] {
                GenericArg::Type(ty) => in_type(ty, param),
                GenericArg::Other => Finding::nothing(),
            },
        )
    }
}

/// Check whether a type has any associations with a generic type
/// parameter. Only paths are searched.
pub fn check_type<'a>(ty: &'a TypeShape, type_param: &String) -> (state: State<'a>)
    ensures
        state@ == in_type(*ty, type_param@),
    decreases ty, 0nat,
{
    match ty {
        TypeShape::Path(path) => check_type_path(path, type_param),
        TypeShape::Other => State::new(),
    }
}

/// Check whether a type path has any associations with a generic type
/// parameter.
pub fn check_type_path<'a>(type_path: &'a TypePath, type_param: &String) -> (state: State<'a>)
    ensures
        state@ == in_path(*type_path, type_param@),
    decreases type_path, 0nat,
{
    if type_path.is_ident(type_param) {
        let state = State { type_param_used: true, assoc_types: Vec::new() };
        assert(state@.assoc =~= Seq::<TypePath>::empty());
        state
    } else if type_path.segments.len() > 1 && type_path.segments[0].ident == *type_param {
        let mut assoc_types: Vec<&'a TypePath> = Vec::new();
        assoc_types.push(type_path);
        let state = State { type_param_used: false, assoc_types };
        assert(state@.assoc =~= seq![*type_path]);
        state
    } else {
        let phantom = "PhantomData".to_owned();
        let mut state = State::new();
        let mut at: usize = 0;
        while at < type_path.segments.len()
            invariant
                at <= type_path.segments.len(),
                phantom@ == "PhantomData"@,
                state@ == in_segments(type_path.segments@, at as int, type_param@),
            decreases type_path.segments.len() - at,
        {
            let segment = &type_path.segments[at];
            if segment.ident != phantom {
                let mut found = check_arguments(&segment.arguments, type_param);
                state = state.merge(&mut found);
            }
            at = at + 1;
        }
        state
    }
}

/// Check for associated type usage in a path segment's arguments.
pub fn check_arguments<'a>(arguments: &'a Arguments, type_param: &String) -> (state: State<'a>)
    ensures
        state@ == in_arguments(*arguments, type_param@),
    decreases arguments, 0nat,
{
    match arguments {
        Arguments::AngleBracketed(list) => {
            let mut state = State::new();
            let mut at: usize = 0;
            while at < list.len()
                invariant
                    at <= list.len(),
                    *arguments == Arguments::AngleBracketed(*list),
                    state@ == in_list(list@, at as int, type_param@),
                decreases list.len() - at,
            {
                match &list[at] {
                    GenericArg::Type(ty) => {
                        proof {
                            assert(decreases_to!(*arguments => arguments->AngleBracketed_0));
                        }
                        let mut found = check_type(ty, type_param);
                        state = state.merge(&mut found);
                    },
                    GenericArg::Other => {},
                }
                at = at + 1;
            }
            state
        },
        _ => State::new(),
    }
}

/// What the first `n` of the fields' types show of the parameter `param`.
pub open spec fn in_fields(fields: Seq<TypeShape>, n: int, param: Seq<char>) -> Finding
    decreases n,
{
    if n <= 0 || n > fields.len() {
        Finding::nothing()
    } else {
        in_fields(fields, n - 1, param).merge(in_type(fields[n - 1], param))
    }
}

/// The associated types that the fields show of the first `m` parameters:
/// those of the first parameter, then those of the second, and so on.
pub open spec fn assoc_of(fields: Seq<TypeShape>, params: Seq<String>, m: int) -> Seq<TypePath>
    decreases m,
{
    if m <= 0 || m > params.len() {
        Seq::empty()
    } else {
        assoc_of(fields, params, m - 1) + in_fields(
            fields,
            fields.len() as int,
            params[m - 1]@,
        ).assoc
    }
}

/// The bounds that a struct gets.
pub struct Bounds<'a> {
    /// For each type parameter, whether it gets the bound.
    pub bounded: Vec<bool>,
    /// The associated types that get the bound in a `where` clause.
    pub assoc_types: Vec<&'a TypePath>,
}

impl<'a> Bounds<'a> {
    /// The associated types, in order.
    pub open spec fn assoc(self) -> Seq<TypePath> {
        Seq::new(self.assoc_types@.len(), |i: int| *self.assoc_types@[i])
    }
}

/// What all fields' types show of one parameter.
fn check_fields<'a>(fields: &'a Vec<TypeShape>, type_param: &String) -> (state: State<'a>)
    ensures
        state@ == in_fields(fields@, fields.len() as int, type_param@),
{
    let mut state = State::new();
    let mut at: usize = 0;
    while at < fields.len()
        invariant
            at <= fields.len(),
            state@ == in_fields(fields@, at as int, type_param@),
        decreases fields.len() - at,
    {
        let mut found = check_type(&fields[at], type_param);
        state = state.merge(&mut found);
        at = at + 1;
    }
    state
}

/// Decides on the bounds of a struct from the types of its fields: a type
/// parameter gets the bound where it is the type of a field or of an
/// argument inside one, outside `PhantomData`; and every associated type of
/// a parameter that stands in a field gets the bound in a `where` clause.
pub fn heuristic_bounds<'a>(fields: &'a Vec<TypeShape>, params: &Vec<String>) -> (bounds: Bounds<
    'a,
>)
    ensures
        bounds.bounded@.len() == params.len(),
        forall|i: int|
            0 <= i < params.len() ==> bounds.bounded@[i] == in_fields(
                fields@,
                fields.len() as int,
                #[trigger] params@[i]@,
            ).used,
        bounds.assoc() == assoc_of(fields@, params@, params.len() as int),
{
    let mut bounds = Bounds { bounded: Vec::new(), assoc_types: Vec::new() };
    let mut at: usize = 0;
    while at < params.len()
        invariant
            at <= params.len(),
            bounds.bounded@.len() == at,
            forall|i: int|
                0 <= i < at ==> bounds.bounded@[i] == in_fields(
                    fields@,
                    fields.len() as int,
                    #[trigger] params@[i]@,
                ).used,
            bounds.assoc() == assoc_of(fields@, params@, at as int),
        decreases params.len() - at,
    {
        let mut state = check_fields(fields, &params[at]);
        bounds.bounded.push(state.type_param_used);
        bounds.assoc_types.append(&mut state.assoc_types);
        at = at + 1;
    }
    bounds
}

} // verus!
