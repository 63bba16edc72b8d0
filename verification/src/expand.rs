//! The whole expansion: the header is read, and the body is expanded in its
//! marked sections or, where it has none, as a whole.

use vstd::prelude::*;
use crate::ast::SeqAst;
use crate::ast::SeqModel;
use crate::header::header;
use crate::header::header_with;
use crate::header::HeaderError;
use crate::header::Readings;
use crate::section::has_marker;
use crate::token::Token;

verus! {

impl SeqModel {
    /// What the invocation expands to: its body with every marked section
    /// expanded over the range, or, where no section is marked, the whole
    /// body expanded over the range.
    pub open spec fn expansion(self) -> Seq<crate::token::Tree> {
        if has_marker(self.content) {
            self.sections(self.content)
        } else {
            self.over_range(self.content)
        }
    }
}

impl SeqAst {
    /// Expands the body of the invocation.
    pub fn expand(&self) -> (out: Vec<Token>)
        ensures
            out.deep_view() == self@.expansion(),
    {
        let (expanded, found) = self.expand_sections(&self.content);
        if found {
            expanded
        } else {
            self.expand_range(&self.content)
        }
    }
}

/// Expands one invocation, given as the tokens between its parentheses.
///
/// A header that the grammar does not take ends the expansion with its
/// error. A range that runs backwards does not: the output then holds a
/// diagnostic where the expansion would stand.
pub fn seq(input: &Vec<Token>) -> (out: Result<Vec<Token>, HeaderError>)
    ensures
        match header(input.deep_view()) {
            Ok(model) => out matches Ok(tokens) && tokens.deep_view() == model.expansion(),
            Err(error) => out == Err::<Vec<Token>, HeaderError>(error),
        },
{
    let read = Readings::of(input);
    seq_with(input, &read)
}

/// Expands one invocation, with the readings of the words of its header
/// given by the caller.
pub fn seq_with(input: &Vec<Token>, readings: &Readings) -> (out: Result<Vec<Token>, HeaderError>)
    ensures
        match header_with(input.deep_view(), *readings) {
            Ok(model) => out matches Ok(tokens) && tokens.deep_view() == model.expansion(),
            Err(error) => out == Err::<Vec<Token>, HeaderError>(error),
        },
{
    match SeqAst::parse_with(input, readings) {
        Ok(ast) => Ok(ast.expand()),
        Err(error) => Err(error),
    }
}

} // verus!
