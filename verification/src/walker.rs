//! The rewrite of one token sequence for one index.
//!
//! Reading from the left, the binding identifier becomes the literal of the
//! index, and an identifier followed by `~` and the binding identifier
//! becomes one identifier that ends in the index. Groups are rewritten
//! inside; everything else stays.

use vstd::prelude::*;
use crate::ast::SeqAst;
use crate::text::decimal;
use crate::text::suffixed_name;
use crate::text::unsuffixed_literal;
use crate::token::Token;
use crate::token::Tree;
use crate::token::lemma_group_view;

verus! {

/// Whether `tokens` begins with a splice: an identifier other than the
/// binding name, then `~`, then the binding name.
pub open spec fn splice_at_head(tokens: Seq<Tree>, name: Seq<char>) -> bool {
    &&& tokens.len() >= 3
    &&& tokens[0] matches Tree::Ident { text, .. } && text != name
    &&& tokens[1] matches Tree::Punct { ch, .. } && ch == '~'
    &&& tokens[2] matches Tree::Ident { text, .. } && text == name
}

/// How many tokens the rewrite of the head of `tokens` takes in: three for
/// a splice, else one.
pub open spec fn head_width(tokens: Seq<Tree>, name: Seq<char>) -> int {
    if splice_at_head(tokens, name) {
        3
    } else {
        1
    }
}

/// The one token that the head of `tokens` is rewritten to.
pub open spec fn rewrite_head(tokens: Seq<Tree>, name: Seq<char>, index: nat) -> Tree
    recommends
        tokens.len() > 0,
    decreases tokens, 0nat,
    when tokens.len() > 0
{
    match tokens[0] {
        Tree::Group { delimiter, tokens: inner, span } => Tree::Group {
            delimiter,
            tokens: rewrite(inner, name, index),
            span,
        },
        Tree::Ident { text, span } => if text == name {
            Tree::Literal { text: decimal(index), span }
        } else if splice_at_head(tokens, name) {
            Tree::Ident { text: text + decimal(index), span }
        } else {
            tokens[0]
        },
        _ => tokens[0],
    }
}

/// The rewrite of a token sequence for one index.
pub open spec fn rewrite(tokens: Seq<Tree>, name: Seq<char>, index: nat) -> Seq<Tree>
    decreases tokens, 1nat,
{
    if tokens.len() == 0 {
        Seq::empty()
    } else {
        seq![rewrite_head(tokens, name, index)] + rewrite(
            tokens.skip(head_width(tokens, name)),
            name,
            index,
        )
    }
}

impl SeqAst {
    /// Rewrites a token sequence for the index `i`.
    pub fn expand_index(&self, tokens: &Vec<Token>, i: u64) -> (out: Vec<Token>)
        ensures
            out.deep_view() == rewrite(tokens.deep_view(), self.ident@, i as nat),
        decreases tokens, 1nat,
    {
        let ghost all = tokens.deep_view();
        let ghost name = self.ident@;
        let mut out: Vec<Token> = Vec::new();
        let mut at: usize = 0;
        proof {
            assert(all.skip(0) =~= all);
        }
        while at < tokens.len()
            invariant
                at <= tokens.len(),
                all == tokens.deep_view(),
                name == self.ident@,
                out.deep_view() + rewrite(all.skip(at as int), name, i as nat) == rewrite(
                    all,
                    name,
                    i as nat,
                ),
            decreases tokens.len() - at,
        {
            let ghost rest = all.skip(at as int);
            let ghost before = out.deep_view();
            let (token, width) = self.expand_tree(tokens, at, i);
            out.push(token);
            proof {
                // One step of the rewrite: the head, then the rest.
                assert(rest.skip(width as int) =~= all.skip(at + width));
                assert(before.push(token@) + rewrite(all.skip(at + width), name, i as nat)
                    =~= before + rewrite(rest, name, i as nat));
            }
            at = at + width;
        }
        out
    }

    /// Rewrites the token at `at` for the index `i`. Gives the token that
    /// takes its place and the number of tokens that it stands for: three
    /// where a splice begins at `at`, else one.
    pub fn expand_tree(&self, tokens: &Vec<Token>, at: usize, i: u64) -> (out: (Token, usize))
        requires
            at < tokens.len(),
        ensures
            out.0@ == rewrite_head(tokens.deep_view().skip(at as int), self.ident@, i as nat),
            out.1 == head_width(tokens.deep_view().skip(at as int), self.ident@),
            at + out.1 <= tokens.len(),
        decreases tokens, 0nat,
    {
        match &tokens[at] {
            Token::Group { delimiter, tokens: inner, span } => {
                let rewritten = self.expand_index(inner, i);
                proof {
                    lemma_group_view(*delimiter, *inner, *span);
                    lemma_group_view(*delimiter, rewritten, *span);
                }
                (Token::Group { delimiter: *delimiter, tokens: rewritten, span: *span }, 1)
            },
            Token::Ident { text, span } => {
                if *text == self.ident {
                    (Token::Literal { text: unsuffixed_literal(i), span: *span }, 1)
                } else if self.splice_follows(tokens, at) {
                    (Token::Ident { text: suffixed_name(text.as_str(), i), span: *span }, 3)
                } else {
                    (tokens[at].clone(), 1)
                }
            },
            _ => (tokens[at].clone(), 1),
        }
    }

    /// Whether `~` and the binding name stand right behind the token at `at`.
    fn splice_follows(&self, tokens: &Vec<Token>, at: usize) -> (found: bool)
        requires
            at < tokens.len(),
        ensures
            found == {
                let rest = tokens.deep_view().skip(at as int);
                &&& rest.len() >= 3
                &&& rest[1] matches Tree::Punct { ch, .. } && ch == '~'
                &&& rest[2] matches Tree::Ident { text, .. } && text == self.ident@
            },
    {
        if tokens.len() - at < 3 {
            return false;
        }
        match (&tokens[at + 1], &tokens[at + 2]) {
            (Token::Punct { ch, .. }, Token::Ident { text, .. }) => *ch == '~' && *text
                == self.ident,
            _ => false,
        }
    }
}

} // verus!
