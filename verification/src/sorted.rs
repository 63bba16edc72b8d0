//! The order check on the variants of an enum and on the arms of a match:
//! names must come in the order of strings, a wildcard arm must be the last
//! one, and every other pattern must be a path.
//!
//! All faults are reported, in the order of the entries, not only the first.

use vstd::prelude::*;
use vstd::string::StringExecFns;
use vstd::string::StringSliceAdditionalSpecFns;
use vstd::utf8::encode_utf8;

verus! {

/// Whether `a` comes before `b` where byte strings are ordered
/// lexicographically: at the first place where they differ `a` has the
/// smaller byte, or `a` ends there and `b` goes on.
pub open spec fn precedes(a: Seq<u8>, b: Seq<u8>) -> bool
    decreases a.len(),
{
    if b.len() == 0 {
        false
    } else if a.len() == 0 {
        true
    } else if a[0] != b[0] {
        a[0] < b[0]
    } else {
        precedes(a.skip(1), b.skip(1))
    }
}

/// Whether the name `a` sorts before the name `b`: names are ordered as Rust
/// orders strings, by the bytes of their UTF-8 text.
pub open spec fn sorts_before(a: Seq<char>, b: Seq<char>) -> bool {
    precedes(encode_utf8(a), encode_utf8(b))
}

/// Whether the name `a` sorts before the name `b`.
pub fn name_sorts_before(a: &str, b: &str) -> (before: bool)
    ensures
        before == sorts_before(a@, b@),
{
    let x = a.as_bytes();
    let y = b.as_bytes();
    let mut at: usize = 0;
    proof {
        assert(x@.skip(0) =~= x@);
        assert(y@.skip(0) =~= y@);
    }
    while at < x.len() && at < y.len()
        invariant
            at <= x.len(),
            at <= y.len(),
            x@ == a.spec_bytes(),
            y@ == b.spec_bytes(),
            precedes(x@, y@) == precedes(x@.skip(at as int), y@.skip(at as int)),
        decreases x.len() - at,
    {
        let ghost xs = x@.skip(at as int);
        let ghost ys = y@.skip(at as int);
        if x[at] != y[at] {
            return x[at] < y[at];
        }
        proof {
            assert(xs.skip(1) =~= x@.skip(at + 1));
            assert(ys.skip(1) =~= y@.skip(at + 1));
        }
        at = at + 1;
    }
    at < y.len()
}

/// What the pattern of a match arm is, as far as the order check reads it.
#[derive(Clone, Debug, PartialEq, Eq)]
pub enum ArmPattern {
    /// A path, a binding or a struct pattern, with the name it is sorted
    /// by.
    Path(String),
    /// The wildcard `_`.
    Wildcard,
    /// Any other pattern.
    Unsupported,
}

/// One fault of the order check. `at` is the place of the faulty entry,
/// counted from zero.
#[derive(Clone, Copy, Debug, PartialEq, Eq)]
pub enum OrderFault {
    /// The name at `at` sorts before the name in front of it. `before` is
    /// the place of the first name that it sorts before.
    OutOfOrder { at: usize, before: usize },
    /// The arm at `at` stands behind a wildcard arm.
    WildcardNotLast { at: usize },
    /// The pattern at `at` is not one that the check can order.
    Unsupported { at: usize },
}

/// Whether the arm at `at` is a path whose name `name` sorts before.
pub open spec fn above(arms: Seq<ArmPattern>, at: int, name: Seq<char>) -> bool {
    &&& 0 <= at < arms.len()
    &&& arms[at] matches ArmPattern::Path(other) && sorts_before(name, other@)
}

/// The first place from `from` on with a path that `name` sorts before, or
/// the number of arms where there is none.
pub open spec fn first_above(arms: Seq<ArmPattern>, name: Seq<char>, from: int) -> int
    decreases arms.len() - from,
{
    if from < 0 || from >= arms.len() {
        arms.len() as int
    } else if above(arms, from, name) {
        from
    } else {
        first_above(arms, name, from + 1)
    }
}

/// The place of the last path among the first `n` arms.
pub open spec fn last_path(arms: Seq<ArmPattern>, n: int) -> Option<int>
    decreases n,
{
    if n <= 0 || n > arms.len() {
        None
    } else if arms[n - 1] is Path {
        Some(n - 1)
    } else {
        last_path(arms, n - 1)
    }
}

/// Whether a wildcard stands among the first `n` arms.
pub open spec fn wildcard_among(arms: Seq<ArmPattern>, n: int) -> bool
    decreases n,
{
    if n <= 0 || n > arms.len() {
        false
    } else {
        arms[n - 1] is Wildcard || wildcard_among(arms, n - 1)
    }
}

/// Whether the arm at `at` is a path whose name sorts before the name of
/// the path in front of it.
pub open spec fn out_of_order(arms: Seq<ArmPattern>, at: int) -> bool {
    &&& 0 <= at < arms.len()
    &&& arms[at] matches ArmPattern::Path(name)
    &&& last_path(arms, at) matches Some(previous)
    &&& above(arms, previous, name@)
}

/// The faults of the arm at `at`: first that it stands behind a wildcard,
/// then what is wrong with its own pattern.
pub open spec fn faults_at(arms: Seq<ArmPattern>, at: int) -> Seq<OrderFault> {
    let late = if wildcard_among(arms, at) {
        seq![OrderFault::WildcardNotLast { at: at as usize }]
    } else {
        Seq::empty()
    };
    let own = match arms[at] {
        ArmPattern::Path(name) => if out_of_order(arms, at) {
            seq![
                OrderFault::OutOfOrder {
                    at: at as usize,
                    before: first_above(arms, name@, 0) as usize,
                },
            ]
        } else {
            Seq::empty()
        },
        ArmPattern::Wildcard => Seq::empty(),
        ArmPattern::Unsupported => seq![OrderFault::Unsupported { at: at as usize }],
    };
    late + own
}

/// The faults of the first `n` arms, in the order of the arms.
pub open spec fn faults(arms: Seq<ArmPattern>, n: int) -> Seq<OrderFault>
    decreases n,
{
    if n <= 0 {
        Seq::empty()
    } else {
        faults(arms, n - 1) + faults_at(arms, n - 1)
    }
}

/// The place of the first path among the arms that `name` sorts before.
fn find_first_above(arms: &Vec<ArmPattern>, name: &String) -> (place: usize)
    ensures
        place == first_above(arms@, name@, 0),
        place <= arms.len(),
{
    let mut at: usize = 0;
    while at < arms.len()
        invariant
            at <= arms.len(),
            first_above(arms@, name@, 0) == first_above(arms@, name@, at as int),
        decreases arms.len() - at,
    {
        match &arms[at] {
            ArmPattern::Path(other) => {
                if name_sorts_before(name.as_str(), other.as_str()) {
                    return at;
                }
            },
            _ => {},
        }
        at = at + 1;
    }
    at
}

/// Checks the arms of a match: every path must not sort before the path in
/// front of it, no arm may stand behind a wildcard, and every pattern must
/// be a path or the wildcard. Gives all faults, in the order of the arms.
pub fn check_arms(arms: &Vec<ArmPattern>) -> (found: Vec<OrderFault>)
    ensures
        found@ == faults(arms@, arms.len() as int),
{
    let mut found: Vec<OrderFault> = Vec::new();
    let mut wildcard = false;
    let mut previous: Option<usize> = None;
    let mut at: usize = 0;
    while at < arms.len()
        invariant
            at <= arms.len(),
            found@ == faults(arms@, at as int),
            wildcard == wildcard_among(arms@, at as int),
            match previous {
                Some(place) => last_path(arms@, at as int) == Some(place as int) && place < at,
                None => last_path(arms@, at as int) is None,
            },
        decreases arms.len() - at,
    {
        if wildcard {
            found.push(OrderFault::WildcardNotLast { at });
        }
        match &arms[at] {
            ArmPattern::Path(name) => {
                match previous {
                    Some(place) => {
                        if sorts_before_arm(arms, place, name) {
                            let target = find_first_above(arms, name);
                            found.push(OrderFault::OutOfOrder { at, before: target });
                        }
                    },
                    None => {},
                }
                previous = Some(at);
            },
            ArmPattern::Wildcard => {
                wildcard = true;
            },
            ArmPattern::Unsupported => {
                found.push(OrderFault::Unsupported { at });
            },
        }
        at = at + 1;
    }
    found
}

/// Whether `name` sorts before the path at `place`.
fn sorts_before_arm(arms: &Vec<ArmPattern>, place: usize, name: &String) -> (before: bool)
    requires
        place < arms.len(),
    ensures
        before == above(arms@, place as int, name@),
{
    match &arms[place] {
        ArmPattern::Path(other) => name_sorts_before(name.as_str(), other.as_str()),
        _ => false,
    }
}

/// The names of an enum's variants as the arms of a match: each is a path.
pub open spec fn as_paths(names: Seq<String>) -> Seq<ArmPattern> {
    Seq::new(names.len(), |i: int| ArmPattern::Path(names[i]))
}

/// Checks the variants of an enum: no name may sort before the name in
/// front of it. Gives all faults, in the order of the variants.
pub fn check_sorted(names: &Vec<String>) -> (found: Vec<OrderFault>)
    ensures
        found@ == faults(as_paths(names@), names.len() as int),
{
    let mut arms: Vec<ArmPattern> = Vec::new();
    let mut at: usize = 0;
    while at < names.len()
        invariant
            at <= names.len(),
            arms.len() == at,
            forall|k: int| 0 <= k < at ==> arms@[k] == ArmPattern::Path(names@[k]),
        decreases names.len() - at,
    {
        arms.push(ArmPattern::Path(names[at].clone()));
        at = at + 1;
    }
    assert(arms@ =~= as_paths(names@));
    check_arms(&arms)
}

/// The name of a path: its segments with `::` between them.
pub open spec fn joined(segments: Seq<String>) -> Seq<char>
    decreases segments.len(),
{
    if segments.len() == 0 {
        Seq::empty()
    } else if segments.len() == 1 {
        segments[0]@
    } else {
        joined(segments.drop_last()) + "::"@ + segments.last()@
    }
}

/// The name that a path is sorted by: its segments with `::` between them.
pub fn path_name(segments: &Vec<String>) -> (name: String)
    ensures
        name@ == joined(segments@),
{
    let mut name = String::new();
    let mut at: usize = 0;
    while at < segments.len()
        invariant
            at <= segments.len(),
            name@ == joined(segments@.take(at as int)),
        decreases segments.len() - at,
    {
        proof {
            assert(segments@.take(at + 1).drop_last() =~= segments@.take(at as int));
        }
        if at > 0 {
            name.append("::");
        }
        name.append(segments[at].as_str());
        at = at + 1;
    }
    assert(segments@.take(at as int) =~= segments@);
    name
}

/// The name of the path at `at`, or no text where there is no path.
pub open spec fn name_at(arms: Seq<ArmPattern>, at: int) -> Seq<char> {
    if 0 <= at < arms.len() {
        match arms[at] {
            ArmPattern::Path(name) => name@,
            _ => Seq::empty(),
        }
    } else {
        Seq::empty()
    }
}

impl OrderFault {
    /// What the fault says to the user, the names taken from `arms`.
    pub open spec fn text(self, arms: Seq<ArmPattern>) -> Seq<char> {
        match self {
            OrderFault::OutOfOrder { at, before } => name_at(arms, at as int)
                + " should sort before "@ + name_at(arms, before as int),
            OrderFault::WildcardNotLast { .. } => "wildcard must be last arm"@,
            OrderFault::Unsupported { .. } => "unsupported by #[sorted]"@,
        }
    }

    /// The place of the faulty entry, counted from zero.
    pub open spec fn place(self) -> usize {
        match self {
            OrderFault::OutOfOrder { at, .. } => at,
            OrderFault::WildcardNotLast { at } => at,
            OrderFault::Unsupported { at } => at,
        }
    }

    /// The place of the faulty entry, counted from zero.
    pub fn at(&self) -> (at: usize)
        ensures
            at == self.place(),
    {
        match self {
            OrderFault::OutOfOrder { at, .. } => *at,
            OrderFault::WildcardNotLast { at } => *at,
            OrderFault::Unsupported { at } => *at,
        }
    }

    /// The message of the fault, the names taken from `arms`: the arms that
    /// were checked.
    pub fn message(&self, arms: &Vec<ArmPattern>) -> (message: String)
        ensures
            message@ == self.text(arms@),
    {
        match self {
            OrderFault::OutOfOrder { at, before } => {
                let mut message = arm_name(arms, *at);
                message.append(" should sort before ");
                message.append(arm_name(arms, *before).as_str());
                message
            },
            OrderFault::WildcardNotLast { .. } => "wildcard must be last arm".to_owned(),
            OrderFault::Unsupported { .. } => "unsupported by #[sorted]".to_owned(),
        }
    }
}

/// The name of the path at `at`, or no text where there is no path.
fn arm_name(arms: &Vec<ArmPattern>, at: usize) -> (name: String)
    ensures
        name@ == name_at(arms@, at as int),
{
    if at < arms.len() {
        match &arms[at] {
            ArmPattern::Path(name) => name.clone(),
            _ => String::new(),
        }
    } else {
        String::new()
    }
}

/// Where `name` sorts before the path at `at`, the first such path from
/// `from` on is found at or before `at`, and no path in front of it is one
/// that `name` sorts before.
pub proof fn law_first_above(arms: Seq<ArmPattern>, name: Seq<char>, from: int, at: int)
    requires
        0 <= from <= at,
        above(arms, at, name),
    ensures
        from <= first_above(arms, name, from) <= at,
        above(arms, first_above(arms, name, from), name),
        forall|k: int| from <= k < first_above(arms, name, from) ==> !above(arms, k, name),
    decreases at - from,
{
    if !above(arms, from, name) {
        law_first_above(arms, name, from + 1, at);
    }
}

/// Whether no name sorts before the name in front of it.
pub open spec fn in_order(names: Seq<String>) -> bool {
    forall|i: int| 0 < i < names.len() ==> !sorts_before(#[trigger] names[i]@, names[i - 1]@)
}

/// The variants of an enum have no fault exactly where no name sorts before
/// the name in front of it.
pub proof fn law_sorted_names(names: Seq<String>)
    ensures
        faults(as_paths(names), names.len() as int).len() == 0 <==> in_order(names),
{
    lemma_sorted_prefix(names, names.len() as int);
    assert(names.take(names.len() as int) =~= names);
}

/// The first `n` variants have no fault exactly where they are in order.
proof fn lemma_sorted_prefix(names: Seq<String>, n: int)
    requires
        0 <= n <= names.len(),
    ensures
        faults(as_paths(names), n).len() == 0 <==> in_order(names.take(n)),
        !wildcard_among(as_paths(names), n),
        n > 0 ==> last_path(as_paths(names), n) == Some(n - 1),
    decreases n,
{
    let arms = as_paths(names);
    if n > 0 {
        lemma_sorted_prefix(names, n - 1);
        let shorter = names.take(n - 1);
        let longer = names.take(n);
        if in_order(longer) {
            // The shorter prefix is in order too, and so is the last pair.
            assert forall|i: int| 0 < i < shorter.len() implies !sorts_before(
                #[trigger] shorter[i]@,
                shorter[i - 1]@,
            ) by {}
            if n > 1 {
                assert(!sorts_before(longer[n - 1]@, longer[n - 2]@));
            }
        }
        if faults(arms, n).len() == 0 {
            // The shorter prefix has no fault, and the last name has none.
            assert forall|i: int| 0 < i < longer.len() implies !sorts_before(
                #[trigger] longer[i]@,
                longer[i - 1]@,
            ) by {}
        }
    }
}

} // verus!
