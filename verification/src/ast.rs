//! The parsed invocation: a binding name, a range and a body.

use vstd::prelude::*;
use crate::token::Span;
use crate::token::Token;
use crate::token::Tree;

verus! {

/// One invocation: `ident in from..to { content }`, or with `..=`.
///
/// Nothing is asked of the bounds: a range that runs backwards is kept as it
/// was written and shows as a diagnostic when it is expanded.
#[derive(Debug, PartialEq, Eq)]
pub struct SeqAst {
    /// The binding name, which stands for the index inside the body.
    pub ident: String,
    /// The first index.
    pub from: u64,
    /// Where the first index was written.
    pub from_span: Span,
    /// The end of the range.
    pub to: u64,
    /// Whether `to` itself is an index.
    pub inclusive: bool,
    /// The body: the tokens between the braces.
    pub content: Vec<Token>,
}

/// What a [`SeqAst`] stands for in contracts.
pub struct SeqModel {
    pub ident: Seq<char>,
    pub from: nat,
    pub from_span: Span,
    pub to: nat,
    pub inclusive: bool,
    pub content: Seq<Tree>,
}

impl View for SeqAst {
    type V = SeqModel;

    open spec fn view(&self) -> SeqModel {
        SeqModel {
            ident: self.ident@,
            from: self.from as nat,
            from_span: self.from_span,
            to: self.to as nat,
            inclusive: self.inclusive,
            content: self.content.deep_view(),
        }
    }
}

} // verus!
