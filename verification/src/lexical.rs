//! What the Rust lexical rules say of the text of one token.
//!
//! Which texts are integer literals, which numbers they stand for and which
//! words are keywords is decided by `syn`, not by this library: the answers
//! are named here and the header grammar is stated over the names.

use vstd::prelude::*;

verus! {

/// How the text of a literal reads as an unsigned 64-bit integer.
#[derive(Clone, Copy, Debug, PartialEq, Eq, Structural)]
pub enum IntReading {
    /// The text is not an integer literal.
    NotInteger,
    /// The text is an integer literal whose value is no `u64`.
    OutOfRange,
    /// The text is an integer literal with this value.
    Value(u64),
}

/// How `syn` reads `text` as an integer literal.
pub uninterp spec fn int_reading(text: Seq<char>) -> IntReading;

/// Whether `syn` takes `text` as an identifier that is no keyword.
pub uninterp spec fn is_identifier(text: Seq<char>) -> bool;

/// Reads the text of a literal as an unsigned 64-bit integer.
///
/// Trusted: parses the text with `syn::parse_str::<syn::LitInt>` and asks the
/// literal for its value with `LitInt::base10_parse::<u64>`. The contract
/// only gives the outcome its name: it is a function of the text alone.
#[verifier::external_body]
pub(crate) fn read_int(text: &str) -> (reading: IntReading)
    ensures
        reading == int_reading(text@),
{
    match syn::parse_str::<syn::LitInt>(text) {
        Ok(literal) => match literal.base10_parse::<u64>() {
            Ok(value) => IntReading::Value(value),
            Err(_) => IntReading::OutOfRange,
        },
        Err(_) => IntReading::NotInteger,
    }
}

/// Whether a word can be a binding name.
///
/// Trusted: parses the text with `syn::parse_str::<syn::Ident>`, which takes
/// one identifier and refuses the keywords of Rust and `_`. The contract only
/// gives the answer its name: it is a function of the text alone.
#[verifier::external_body]
pub(crate) fn accepts_identifier(text: &str) -> (accepted: bool)
    ensures
        accepted == is_identifier(text@),
{
    syn::parse_str::<syn::Ident>(text).is_ok()
}

} // verus!
