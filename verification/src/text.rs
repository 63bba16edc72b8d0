//! The decimal text of an index, as it is written into literals and
//! identifiers.

use vstd::prelude::*;

verus! {

/// The character of one decimal digit.
pub open spec fn digit(d: nat) -> char
    recommends
        d < 10,
{
    seq!['0', '1', '2', '3', '4', '5', '6', '7', '8', '9'][d as int]
}

/// The decimal text of a number: no sign, no leading zero, `0` for zero.
pub open spec fn decimal(n: nat) -> Seq<char>
    decreases n,
{
    if n < 10 {
        seq![digit(n)]
    } else {
        decimal(n / 10).push(digit(n % 10))
    }
}

/// The text of the unsuffixed integer literal for `n`.
///
/// Trusted: calls `proc_macro2::Literal::u64_unsuffixed` and takes the text
/// of the literal it makes. The contract claims that this text is the
/// decimal text of `n`, which is how the crate documents such a literal
/// ("an integer like `1`", with no suffix).
#[verifier::external_body]
pub(crate) fn unsuffixed_literal(n: u64) -> (text: String)
    ensures
        text@ == decimal(n as nat),
{
    proc_macro2::Literal::u64_unsuffixed(n).to_string()
}

/// The text of `name` with the decimal text of `n` behind it.
///
/// Trusted: calls std's `format!` with two `{}` places. The contract claims
/// what std documents of `Display`: a `str` is written as it is, and a `u64`
/// as its decimal text.
#[verifier::external_body]
pub(crate) fn suffixed_name(name: &str, n: u64) -> (text: String)
    ensures
        text@ == name@ + decimal(n as nat),
{
    format!("{}{}", name, n)
}

} // verus!
