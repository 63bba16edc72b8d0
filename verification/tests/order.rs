//! The order check on enum variants and match arms.

use seq_expand::sorted::{
    check_arms, check_sorted, name_sorts_before, path_name, ArmPattern, OrderFault,
};

fn names(list: &[&str]) -> Vec<String> {
    list.iter().map(|name| name.to_string()).collect()
}

fn path(name: &str) -> ArmPattern {
    ArmPattern::Path(name.to_string())
}

#[test]
fn sorted_variants_have_no_fault() {
    assert_eq!(check_sorted(&names(&["BTC", "DOGE", "ETH", "SOL", "USDC", "XRP"])), vec![]);
    assert_eq!(check_sorted(&names(&[])), vec![]);
    assert_eq!(check_sorted(&names(&["Only"])), vec![]);
}

#[test]
fn equal_neighbours_are_in_order() {
    assert_eq!(check_sorted(&names(&["A", "A", "B", "B"])), vec![]);
}

#[test]
fn variant_out_of_order_names_the_one_it_belongs_before() {
    let variants = names(&["That", "This", "SomethingElse", "Zed"]);
    let faults = check_sorted(&variants);
    assert_eq!(faults, vec![OrderFault::OutOfOrder { at: 2, before: 0 }]);
    let arms: Vec<ArmPattern> = variants.iter().map(|name| path(name)).collect();
    assert_eq!(faults[0].message(&arms), "SomethingElse should sort before That");
    assert_eq!(faults[0].at(), 2);
}

#[test]
fn the_target_is_the_first_greater_name() {
    // `C` sorts before `D` and `E`; the first of them is `D`.
    let faults = check_sorted(&names(&["A", "B", "D", "E", "C"]));
    assert_eq!(faults, vec![OrderFault::OutOfOrder { at: 4, before: 2 }]);
}

#[test]
fn every_variant_out_of_order_is_reported() {
    let faults = check_sorted(&names(&["C", "B", "A", "D"]));
    assert_eq!(
        faults,
        vec![
            OrderFault::OutOfOrder { at: 1, before: 0 },
            OrderFault::OutOfOrder { at: 2, before: 0 },
        ]
    );
}

#[test]
fn a_name_is_compared_with_the_one_in_front_of_it() {
    // `B` stands behind `A`, which it does not sort before: no fault for
    // `B`, though it sorts before `C`.
    let faults = check_sorted(&names(&["C", "A", "B"]));
    assert_eq!(faults, vec![OrderFault::OutOfOrder { at: 1, before: 0 }]);
}

#[test]
fn names_are_ordered_by_their_bytes() {
    assert!(name_sorts_before("A", "B"));
    assert!(!name_sorts_before("B", "A"));
    assert!(!name_sorts_before("A", "A"));
    assert!(name_sorts_before("", "A"));
    assert!(!name_sorts_before("", ""));
    assert!(!name_sorts_before("A", ""));
    assert!(name_sorts_before("Ab", "Abc"));
    assert!(!name_sorts_before("Abc", "Ab"));
    // Upper case comes before lower case, digits before both.
    assert!(name_sorts_before("Zed", "apple"));
    assert!(name_sorts_before("a1", "aA"));
    assert!(name_sorts_before("Error::Fmt", "Error::Io"));
    assert!(name_sorts_before("Error", "Error::Io"));
    // Beyond ASCII the order is that of the code points.
    assert!(name_sorts_before("z", "\u{e9}"));
    assert!(name_sorts_before("\u{e9}", "\u{4e2d}"));
    assert!(name_sorts_before("\u{ffff}", "\u{10000}"));
    for (a, b) in [("A", "B"), ("Ab", "Abc"), ("z", "\u{e9}"), ("\u{ffff}", "\u{10000}"), ("q", "q")] {
        assert_eq!(name_sorts_before(a, b), a < b);
        assert_eq!(name_sorts_before(b, a), b < a);
    }
}

#[test]
fn path_name_joins_the_segments() {
    assert_eq!(path_name(&names(&["Error", "Io"])), "Error::Io");
    assert_eq!(path_name(&names(&["std", "fmt", "Error"])), "std::fmt::Error");
    assert_eq!(path_name(&names(&["Fmt"])), "Fmt");
    assert_eq!(path_name(&names(&[])), "");
}

#[test]
fn sorted_arms_with_a_last_wildcard_have_no_fault() {
    let arms = vec![path("Token::BTC"), path("Token::ETH"), path("Token::SOL"), ArmPattern::Wildcard];
    assert_eq!(check_arms(&arms), vec![]);
    assert_eq!(check_arms(&vec![]), vec![]);
    assert_eq!(check_arms(&vec![ArmPattern::Wildcard]), vec![]);
}

#[test]
fn arm_out_of_order() {
    let arms = vec![path("Error::Io"), path("Error::Fmt"), ArmPattern::Wildcard];
    let faults = check_arms(&arms);
    assert_eq!(faults, vec![OrderFault::OutOfOrder { at: 1, before: 0 }]);
    assert_eq!(faults[0].message(&arms), "Error::Fmt should sort before Error::Io");
}

#[test]
fn arm_behind_a_wildcard() {
    let arms = vec![path("A"), ArmPattern::Wildcard, path("B"), ArmPattern::Wildcard];
    let faults = check_arms(&arms);
    assert_eq!(
        faults,
        vec![OrderFault::WildcardNotLast { at: 2 }, OrderFault::WildcardNotLast { at: 3 }]
    );
    assert_eq!(faults[0].message(&arms), "wildcard must be last arm");
    assert_eq!(faults[1].at(), 3);
}

#[test]
fn pattern_that_cannot_be_ordered() {
    let arms = vec![path("A"), ArmPattern::Unsupported, path("B")];
    let faults = check_arms(&arms);
    assert_eq!(faults, vec![OrderFault::Unsupported { at: 1 }]);
    assert_eq!(faults[0].message(&arms), "unsupported by #[sorted]");
}

#[test]
fn all_faults_of_the_arms_in_order() {
    let arms = vec![
        path("D"),
        ArmPattern::Unsupported,
        path("B"),
        ArmPattern::Wildcard,
        path("A"),
        ArmPattern::Unsupported,
        path("C"),
    ];
    assert_eq!(
        check_arms(&arms),
        vec![
            OrderFault::Unsupported { at: 1 },
            OrderFault::OutOfOrder { at: 2, before: 0 },
            OrderFault::WildcardNotLast { at: 4 },
            OrderFault::OutOfOrder { at: 4, before: 0 },
            OrderFault::WildcardNotLast { at: 5 },
            OrderFault::Unsupported { at: 5 },
            OrderFault::WildcardNotLast { at: 6 },
        ]
    );
}

#[test]
fn wildcards_and_other_patterns_do_not_count_as_names() {
    // The name in front of `A` is `B`, across the arm that is no path.
    let arms = vec![path("B"), ArmPattern::Unsupported, path("A")];
    assert_eq!(
        check_arms(&arms),
        vec![OrderFault::Unsupported { at: 1 }, OrderFault::OutOfOrder { at: 2, before: 0 }]
    );
}

#[test]
fn message_of_a_fault_that_points_nowhere() {
    let arms = vec![path("A")];
    let fault = OrderFault::OutOfOrder { at: 0, before: 7 };
    assert_eq!(fault.message(&arms), "A should sort before ");
    let fault = OrderFault::OutOfOrder { at: 3, before: 0 };
    assert_eq!(fault.message(&vec![ArmPattern::Wildcard]), " should sort before ");
}
