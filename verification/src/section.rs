//! Marked sections: `#( ... )*` stands for the tokens between the
//! parentheses, expanded over the range. The rest of the body stays as it
//! is, but for the groups, which are searched for sections of their own.

use vstd::prelude::*;
use crate::ast::SeqAst;
use crate::ast::SeqModel;
use crate::header::inside;
use crate::token::lemma_group_view;
use crate::token::Delimiter;
use crate::token::Token;
use crate::token::Tree;

verus! {

/// Whether `tokens` begins with a section marker: `#`, a group in
/// parentheses, `*`.
pub open spec fn marker_at_head(tokens: Seq<Tree>) -> bool {
    &&& tokens.len() >= 3
    &&& tokens[0] matches Tree::Punct { ch, .. } && ch == '#'
    &&& tokens[1] matches Tree::Group { delimiter, .. } && delimiter == Delimiter::Parenthesis
    &&& tokens[2] matches Tree::Punct { ch, .. } && ch == '*'
}

/// Whether a section marker begins `tokens`, or their first token is a
/// group with a section marker somewhere inside.
pub open spec fn marked_head(tokens: Seq<Tree>) -> bool {
    ||| marker_at_head(tokens)
    ||| tokens.len() > 0 && has_marker(inside(tokens, 0))
}

/// Whether a section marker stands anywhere in `tokens`, at any depth: at
/// their head, inside their first token, or anywhere in the tokens behind
/// it.
pub open spec fn has_marker(tokens: Seq<Tree>) -> bool
    decreases tokens,
{
    if tokens.len() == 0 {
        false
    } else {
        ||| marker_at_head(tokens)
        ||| match tokens[0] {
            Tree::Group { tokens: inner, .. } => has_marker(inner),
            _ => false,
        }
        ||| has_marker(tokens.skip(1))
    }
}

/// How many tokens the scan takes in at the head of `tokens`: the three of
/// a marker, else one.
pub open spec fn section_width(tokens: Seq<Tree>) -> int {
    if marker_at_head(tokens) {
        3
    } else {
        1
    }
}

impl SeqModel {
    /// What the head of `tokens` is replaced by: a marker by the expansion
    /// of its section, a group by the group of what its tokens are replaced
    /// by, any other token by itself.
    pub open spec fn section_head(self, tokens: Seq<Tree>) -> Seq<Tree>
        recommends
            tokens.len() > 0,
        decreases tokens, 0nat,
        when tokens.len() > 0
    {
        if marker_at_head(tokens) {
            self.over_range(inside(tokens, 1))
        } else {
            match tokens[0] {
                Tree::Group { delimiter, tokens: inner, span } => seq![
                    Tree::Group { delimiter, tokens: self.sections(inner), span },
                ],
                _ => seq![tokens[0]],
            }
        }
    }

    /// `tokens` with every marked section expanded over the range.
    pub open spec fn sections(self, tokens: Seq<Tree>) -> Seq<Tree>
        decreases tokens, 1nat,
    {
        if tokens.len() == 0 {
            Seq::empty()
        } else {
            self.section_head(tokens) + self.sections(tokens.skip(section_width(tokens)))
        }
    }
}

impl SeqAst {
    /// Expands every marked section of `tokens`, and says whether there was
    /// one.
    pub fn expand_sections(&self, tokens: &Vec<Token>) -> (out: (Vec<Token>, bool))
        ensures
            out.0.deep_view() == self@.sections(tokens.deep_view()),
            out.1 == has_marker(tokens.deep_view()),
        decreases tokens, 1nat,
    {
        let ghost all = tokens.deep_view();
        let mut expanded: Vec<Token> = Vec::new();
        let mut found = false;
        let mut at: usize = 0;
        proof {
            assert(all.skip(0) =~= all);
        }
        while at < tokens.len()
            invariant
                at <= tokens.len(),
                all == tokens.deep_view(),
                expanded.deep_view() + self@.sections(all.skip(at as int)) == self@.sections(all),
                (found || has_marker(all.skip(at as int))) == has_marker(all),
            decreases tokens.len() - at,
        {
            let ghost rest = all.skip(at as int);
            let ghost before = expanded.deep_view();
            let (mut piece, width, marked) = self.expand_section(tokens, at);
            let ghost added = piece.deep_view();
            expanded.append(&mut piece);
            proof {
                // One step of the scan: the head, then the rest.
                assert(rest.skip(width as int) =~= all.skip(at + width));
                assert((before + added) + self@.sections(all.skip(at + width)) =~= before
                    + self@.sections(rest));
            }
            found = found || marked;
            at = at + width;
        }
        (expanded, found)
    }

    /// Expands what begins at `at`. Gives the tokens that take its place,
    /// the number of tokens that they stand for (the three of a marker, else
    /// one), and whether a marker was found there or inside.
    pub fn expand_section(&self, tokens: &Vec<Token>, at: usize) -> (out: (Vec<Token>, usize, bool))
        requires
            at < tokens.len(),
        ensures
            out.0.deep_view() == self@.section_head(tokens.deep_view().skip(at as int)),
            out.1 == section_width(tokens.deep_view().skip(at as int)),
            out.2 == marked_head(tokens.deep_view().skip(at as int)),
            at + out.1 <= tokens.len(),
        decreases tokens, 0nat,
    {
        match marked_section(tokens, at) {
            Some(section) => {
                let expansion = self.expand_range(section);
                return (expansion, 3, true);
            },
            None => {},
        }
        let mut piece: Vec<Token> = Vec::new();
        match &tokens[at] {
            Token::Group { delimiter, tokens: inner, span } => {
                let (expanded, found) = self.expand_sections(inner);
                proof {
                    lemma_group_view(*delimiter, *inner, *span);
                    lemma_group_view(*delimiter, expanded, *span);
                }
                let group = Token::Group {
                    delimiter: *delimiter,
                    tokens: expanded,
                    span: *span,
                };
                piece.push(group);
                (piece, 1, found)
            },
            _ => {
                let copy = tokens[at].clone();
                piece.push(copy);
                (piece, 1, false)
            },
        }
    }
}

/// The tokens of the section whose marker begins at `at`, if one does.
fn marked_section(tokens: &Vec<Token>, at: usize) -> (section: Option<&Vec<Token>>)
    requires
        at < tokens.len(),
    ensures
        section is Some == marker_at_head(tokens.deep_view().skip(at as int)),
        section matches Some(inner) ==> inner.deep_view() == inside(
            tokens.deep_view().skip(at as int),
            1,
        ),
{
    if tokens.len() - at < 3 {
        return None;
    }
    match (&tokens[at], &tokens[at + 1], &tokens[at + 2]) {
        (
            Token::Punct { ch: first, .. },
            Token::Group { delimiter, tokens: inner, span },
            Token::Punct { ch: last, .. },
        ) => {
            proof {
                lemma_group_view(*delimiter, *inner, *span);
            }
            if *first == '#' && *last == '*' {
                match delimiter {
                    Delimiter::Parenthesis => Some(inner),
                    _ => None,
                }
            } else {
                None
            }
        },
        _ => None,
    }
}

} // verus!
