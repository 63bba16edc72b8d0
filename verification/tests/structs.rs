//! What the generators for structs decide: the plan of the builder for a
//! field, and the bounds of the formatter.

use seq_expand::builder::{
    builder_doc, builder_ext_method, builder_name, expected_each, not_set, plan_field, Build,
    BuilderAttr, FieldPlan, Initial, Method, Storage,
};
use seq_expand::debug::{check_arguments, check_type, check_type_path, heuristic_bounds, State};
use seq_expand::shape::{inner_type, Arguments, GenericArg, Segment, TypePath, TypeShape};

fn word(name: &str) -> Segment {
    Segment { ident: name.to_string(), arguments: Arguments::Absent }
}

fn generic(name: &str, arguments: Vec<GenericArg>) -> Segment {
    Segment { ident: name.to_string(), arguments: Arguments::AngleBracketed(arguments) }
}

fn path(handle: u64, segments: Vec<Segment>) -> TypePath {
    TypePath { handle, leading_colon: false, segments }
}

/// The type `name`.
fn plain(handle: u64, name: &str) -> TypeShape {
    TypeShape::Path(path(handle, vec![word(name)]))
}

/// The type `name<inner>`.
fn of(handle: u64, name: &str, inner: TypeShape) -> TypeShape {
    TypeShape::Path(path(handle, vec![generic(name, vec![GenericArg::Type(inner)])]))
}

/// The type `first::second`.
fn assoc(handle: u64, first: &str, second: &str) -> TypeShape {
    TypeShape::Path(path(handle, vec![word(first), word(second)]))
}

fn text(name: &str) -> String {
    name.to_string()
}

#[test]
fn inner_type_of_a_wrapper() {
    let ty = of(0, "Option", plain(1, "String"));
    assert_eq!(inner_type(&text("Option"), &ty), Some(&plain(1, "String")));
    assert_eq!(inner_type(&text("Vec"), &ty), None);
    assert_eq!(inner_type(&text("Option"), &plain(0, "Option")), None);
    assert_eq!(inner_type(&text("Option"), &TypeShape::Other), None);
}

#[test]
fn inner_type_reads_only_the_first_argument() {
    let two = TypeShape::Path(path(
        0,
        vec![generic("Map", vec![GenericArg::Type(plain(1, "K")), GenericArg::Type(plain(2, "V"))])],
    ));
    assert_eq!(inner_type(&text("Map"), &two), Some(&plain(1, "K")));
    let lifetime_first = TypeShape::Path(path(
        0,
        vec![generic("Cow", vec![GenericArg::Other, GenericArg::Type(plain(1, "str"))])],
    ));
    assert_eq!(inner_type(&text("Cow"), &lifetime_first), None);
    let none = TypeShape::Path(path(0, vec![generic("Vec", vec![])]));
    assert_eq!(inner_type(&text("Vec"), &none), None);
}

#[test]
fn inner_type_needs_a_path_of_one_segment() {
    let long = TypeShape::Path(path(
        0,
        vec![word("std"), word("option"), generic("Option", vec![GenericArg::Type(plain(1, "T"))])],
    ));
    assert_eq!(inner_type(&text("Option"), &long), None);
    let call = TypeShape::Path(path(
        0,
        vec![Segment { ident: text("Fn"), arguments: Arguments::Parenthesized }],
    ));
    assert_eq!(inner_type(&text("Fn"), &call), None);
    // A leading `::` does not matter.
    let rooted = TypeShape::Path(TypePath {
        handle: 0,
        leading_colon: true,
        segments: vec![generic("Vec", vec![GenericArg::Type(plain(1, "T"))])],
    });
    assert_eq!(inner_type(&text("Vec"), &rooted), Some(&plain(1, "T")));
}

#[test]
fn is_ident_is_one_bare_word() {
    let ty = path(0, vec![word("T")]);
    assert!(ty.is_ident(&text("T")));
    assert!(!ty.is_ident(&text("U")));
    assert!(!path(0, vec![word("T"), word("Item")]).is_ident(&text("T")));
    assert!(!path(0, vec![generic("T", vec![])]).is_ident(&text("T")));
    assert!(!path(0, vec![]).is_ident(&text("T")));
    let rooted = TypePath { handle: 0, leading_colon: true, segments: vec![word("T")] };
    assert!(!rooted.is_ident(&text("T")));
}

fn plan(storage: Storage, initial: Initial, method: Method, build: Build) -> FieldPlan {
    FieldPlan { storage, initial, method, build }
}

#[test]
fn plain_field_is_wrapped_and_required() {
    assert_eq!(
        plan_field(&plain(0, "String"), &BuilderAttr::Absent),
        plan(Storage::Optional, Initial::Nothing, Method::Setter, Build::Required)
    );
    assert_eq!(
        plan_field(&TypeShape::Other, &BuilderAttr::Absent),
        plan(Storage::Optional, Initial::Nothing, Method::Setter, Build::Required)
    );
    // A `Vec` without the attribute is a plain field.
    assert_eq!(
        plan_field(&of(0, "Vec", plain(1, "String")), &BuilderAttr::Absent),
        plan(Storage::Optional, Initial::Nothing, Method::Setter, Build::Required)
    );
}

#[test]
fn optional_field_is_stored_as_it_is() {
    assert_eq!(
        plan_field(&of(0, "Option", plain(1, "String")), &BuilderAttr::Absent),
        plan(Storage::Declared, Initial::Nothing, Method::SetterOfInner, Build::Cloned)
    );
}

#[test]
fn vec_with_each_gets_an_extender() {
    assert_eq!(
        plan_field(&of(0, "Vec", plain(1, "String")), &BuilderAttr::Each(text("arg"))),
        plan(Storage::Declared, Initial::EmptyVec, Method::Extender, Build::Cloned)
    );
}

#[test]
fn each_on_a_field_that_is_no_vec_gives_a_setter() {
    assert_eq!(
        plan_field(&plain(0, "String"), &BuilderAttr::Each(text("arg"))),
        plan(Storage::Declared, Initial::Nothing, Method::Setter, Build::Cloned)
    );
    assert_eq!(
        plan_field(&of(0, "Option", plain(1, "String")), &BuilderAttr::Each(text("arg"))),
        plan(Storage::Declared, Initial::Nothing, Method::SetterOfInner, Build::Cloned)
    );
}

#[test]
fn malformed_attribute_is_rejected() {
    assert_eq!(
        plan_field(&of(0, "Vec", plain(1, "String")), &BuilderAttr::Malformed),
        plan(Storage::Declared, Initial::EmptyVec, Method::Rejected, Build::Cloned)
    );
    assert_eq!(
        plan_field(&plain(0, "String"), &BuilderAttr::Malformed),
        plan(Storage::Declared, Initial::Nothing, Method::Rejected, Build::Cloned)
    );
}

#[test]
fn ext_method_for_each_kind_of_attribute() {
    let vec = of(0, "Vec", plain(1, "String"));
    let other = plain(0, "String");
    assert_eq!(builder_ext_method(&vec, &BuilderAttr::Absent), None);
    assert_eq!(builder_ext_method(&vec, &BuilderAttr::Each(text("x"))), Some(Method::Extender));
    assert_eq!(builder_ext_method(&other, &BuilderAttr::Each(text("x"))), None);
    assert_eq!(builder_ext_method(&vec, &BuilderAttr::Malformed), Some(Method::Rejected));
    assert_eq!(builder_ext_method(&other, &BuilderAttr::Malformed), Some(Method::Rejected));
}

#[test]
fn texts_of_the_builder() {
    assert_eq!(builder_name("Command"), "CommandBuilder");
    assert_eq!(builder_name(""), "Builder");
    assert_eq!(builder_doc("Command"), "Implements the builder pattern for `Command`");
    assert_eq!(not_set("executable"), "executable not set");
    assert_eq!(expected_each(), "expected `builder(each = \"...\")`");
}

fn found<'a>(state: &State<'a>) -> (bool, Vec<u64>) {
    (state.type_param_used, state.assoc_types.iter().map(|path| path.handle).collect())
}

#[test]
fn parameter_as_the_type_of_a_field() {
    let t = text("T");
    assert_eq!(found(&check_type(&plain(0, "T"), &t)), (true, vec![]));
    assert_eq!(found(&check_type(&plain(0, "U"), &t)), (false, vec![]));
    assert_eq!(found(&check_type(&TypeShape::Other, &t)), (false, vec![]));
}

#[test]
fn parameter_inside_the_arguments() {
    let t = text("T");
    let ty = of(0, "Vec", of(1, "Option", plain(2, "T")));
    assert_eq!(found(&check_type(&ty, &t)), (true, vec![]));
    let ty = of(0, "Vec", of(1, "Option", plain(2, "U")));
    assert_eq!(found(&check_type(&ty, &t)), (false, vec![]));
}

#[test]
fn phantom_data_hides_the_parameter() {
    let t = text("T");
    assert_eq!(found(&check_type(&of(0, "PhantomData", plain(1, "T")), &t)), (false, vec![]));
    // Only the arguments of the `PhantomData` segment are passed over.
    let both = TypeShape::Path(path(
        0,
        vec![
            generic("Outer", vec![GenericArg::Type(plain(1, "T"))]),
            generic("PhantomData", vec![GenericArg::Type(plain(2, "T"))]),
        ],
    ));
    assert_eq!(found(&check_type(&both, &t)), (true, vec![]));
    let inside = of(0, "Vec", of(1, "PhantomData", plain(2, "T")));
    assert_eq!(found(&check_type(&inside, &t)), (false, vec![]));
}

#[test]
fn associated_type_of_the_parameter() {
    let t = text("T");
    assert_eq!(found(&check_type(&assoc(5, "T", "Value"), &t)), (false, vec![5]));
    assert_eq!(found(&check_type(&assoc(5, "U", "Value"), &t)), (false, vec![]));
    let ty = of(0, "Vec", assoc(7, "T", "Value"));
    assert_eq!(found(&check_type(&ty, &t)), (false, vec![7]));
    // The arguments of an associated type are not searched.
    let deep = TypeShape::Path(path(
        9,
        vec![word("T"), generic("Value", vec![GenericArg::Type(plain(10, "T"))])],
    ));
    assert_eq!(found(&check_type(&deep, &t)), (false, vec![9]));
}

#[test]
fn findings_are_merged_in_order() {
    let t = text("T");
    let ty = TypeShape::Path(path(
        0,
        vec![
            generic("A", vec![GenericArg::Type(assoc(1, "T", "X")), GenericArg::Other]),
            generic(
                "B",
                vec![
                    GenericArg::Type(plain(2, "T")),
                    GenericArg::Type(assoc(3, "T", "Y")),
                    GenericArg::Type(of(4, "Box", assoc(5, "T", "Z"))),
                ],
            ),
        ],
    ));
    assert_eq!(found(&check_type(&ty, &t)), (true, vec![1, 3, 5]));
    match &ty {
        TypeShape::Path(type_path) => {
            assert_eq!(found(&check_type_path(type_path, &t)), (true, vec![1, 3, 5]));
            assert_eq!(found(&check_arguments(&type_path.segments[0].arguments, &t)), (false, vec![1]));
            assert_eq!(
                found(&check_arguments(&type_path.segments[1].arguments, &t)),
                (true, vec![3, 5])
            );
        }
        TypeShape::Other => unreachable!(),
    }
    assert_eq!(found(&check_arguments(&Arguments::Absent, &t)), (false, vec![]));
    assert_eq!(found(&check_arguments(&Arguments::Parenthesized, &t)), (false, vec![]));
}

#[test]
fn merge_moves_the_paths_of_the_other_state() {
    let first = path(1, vec![word("T"), word("A")]);
    let second = path(2, vec![word("T"), word("B")]);
    let state = State { type_param_used: false, assoc_types: vec![&first] };
    let mut other = State { type_param_used: true, assoc_types: vec![&second] };
    let merged = state.merge(&mut other);
    assert_eq!(found(&merged), (true, vec![1, 2]));
    assert_eq!(found(&other), (true, vec![]));
    let merged = merged.merge(&mut State::new());
    assert_eq!(found(&merged), (true, vec![1, 2]));
    assert_eq!(found(&State::new()), (false, vec![]));
}

#[test]
fn bounds_of_a_struct() {
    // struct Field<T, U, V> { a: T, b: PhantomData<U>, c: Vec<V::Value>, d: Option<T::Item>, e: &'static str }
    let fields = vec![
        plain(0, "T"),
        of(1, "PhantomData", plain(2, "U")),
        of(3, "Vec", assoc(4, "V", "Value")),
        of(5, "Option", assoc(6, "T", "Item")),
        TypeShape::Other,
    ];
    let params = vec![text("T"), text("U"), text("V")];
    let bounds = heuristic_bounds(&fields, &params);
    assert_eq!(bounds.bounded, vec![true, false, false]);
    let handles: Vec<u64> = bounds.assoc_types.iter().map(|path| path.handle).collect();
    assert_eq!(handles, vec![6, 4]);
}

#[test]
fn bounds_without_parameters_or_fields() {
    let none = vec![];
    let bounds = heuristic_bounds(&none, &vec![text("T")]);
    assert_eq!(bounds.bounded, vec![false]);
    assert!(bounds.assoc_types.is_empty());
    let fields = vec![plain(0, "T")];
    let bounds = heuristic_bounds(&fields, &vec![]);
    assert!(bounds.bounded.is_empty());
    assert!(bounds.assoc_types.is_empty());
}
