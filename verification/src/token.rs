//! The token tree that every part of the library reads and builds.

use vstd::prelude::*;

verus! {

/// A handle to a place in the source text. The library never looks inside a
/// span: it carries the span of an input token over to the token or the
/// diagnostic that takes its place.
#[derive(Clone, Copy, Debug, PartialEq, Eq, Hash, Structural)]
pub struct Span {
    pub handle: u64,
}

/// The pair of brackets around a group.
#[derive(Clone, Copy, Debug, PartialEq, Eq, Hash, Structural)]
pub enum Delimiter {
    /// `( ... )`
    Parenthesis,
    /// `{ ... }`
    Brace,
    /// `[ ... ]`
    Bracket,
    /// No visible brackets: a group that only keeps its tokens together.
    Invisible,
}

/// One token, or a bracketed group of tokens.
#[derive(Debug, PartialEq, Eq)]
pub enum Token {
    /// A word: an identifier or a keyword.
    Ident { text: String, span: Span },
    /// A literal, kept as the text it was written with.
    Literal { text: String, span: Span },
    /// One punctuation character; `joint` says that the next token follows
    /// it with nothing in between.
    Punct { ch: char, joint: bool, span: Span },
    /// A bracketed group, which owns the tokens inside it.
    Group { delimiter: Delimiter, tokens: Vec<Token>, span: Span },
    /// An error that takes the place of tokens in the output, so that the
    /// output stays well formed and carries the error to the compiler.
    Diagnostic { message: String, span: Span },
}

/// What a [`Token`] stands for in contracts: the same tree, with sequences
/// of characters for its texts and a sequence of trees inside a group.
pub enum Tree {
    /// A word with its text.
    Ident { text: Seq<char>, span: Span },
    /// A literal with the text it was written with.
    Literal { text: Seq<char>, span: Span },
    /// One punctuation character.
    Punct { ch: char, joint: bool, span: Span },
    /// A group with the trees of its tokens.
    Group { delimiter: Delimiter, tokens: Seq<Tree>, span: Span },
    /// An error in the place of tokens.
    Diagnostic { message: Seq<char>, span: Span },
}

impl Tree {
    /// The place in the source that the token came from.
    pub open spec fn span(self) -> Span {
        match self {
            Tree::Ident { span, .. } => span,
            Tree::Literal { span, .. } => span,
            Tree::Punct { span, .. } => span,
            Tree::Group { span, .. } => span,
            Tree::Diagnostic { span, .. } => span,
        }
    }
}

/// The tree that a token stands for. Inside a group the tree at each place
/// is the tree of the token at that place.
pub open spec fn tree(token: Token) -> Tree
    decreases token,
{
    match token {
        Token::Ident { text, span } => Tree::Ident { text: text@, span },
        Token::Literal { text, span } => Tree::Literal { text: text@, span },
        Token::Punct { ch, joint, span } => Tree::Punct { ch, joint, span },
        Token::Group { delimiter, tokens, span } => Tree::Group {
            delimiter,
            tokens: Seq::new(
                tokens@.len(),
                |i: int|
                    if 0 <= i < tokens@.len() {
                        tree(tokens@[i])
                    } else {
                        arbitrary()
                    },
            ),
            span,
        },
        Token::Diagnostic { message, span } => Tree::Diagnostic { message: message@, span },
    }
}

impl View for Token {
    type V = Tree;

    open spec fn view(&self) -> Tree {
        tree(*self)
    }
}

impl DeepView for Token {
    type V = Tree;

    open spec fn deep_view(&self) -> Tree {
        tree(*self)
    }
}

/// The tree of a group is the group of its tokens' trees.
pub proof fn lemma_group_view(delimiter: Delimiter, tokens: Vec<Token>, span: Span)
    ensures
        (Token::Group { delimiter, tokens, span })@ == (Tree::Group {
            delimiter,
            tokens: tokens.deep_view(),
            span,
        }),
{
    let t = Token::Group { delimiter, tokens, span };
    assert(t@->Group_tokens =~= tokens.deep_view());
}

impl Token {
    /// The place in the source that the token came from.
    pub fn span(&self) -> (span: Span)
        ensures
            span == self@.span(),
    {
        match self {
            Token::Ident { span, .. } => *span,
            Token::Literal { span, .. } => *span,
            Token::Punct { span, .. } => *span,
            Token::Group { span, .. } => *span,
            Token::Diagnostic { span, .. } => *span,
        }
    }
}

impl Clone for Token {
    /// A copy of the whole tree under this token.
    fn clone(&self) -> (copy: Token)
        ensures
            copy@ == self@,
        decreases self,
    {
        match self {
            Token::Ident { text, span } => Token::Ident { text: text.clone(), span: *span },
            Token::Literal { text, span } => Token::Literal { text: text.clone(), span: *span },
            Token::Punct { ch, joint, span } => Token::Punct {
                ch: *ch,
                joint: *joint,
                span: *span,
            },
            Token::Group { delimiter, tokens, span } => {
                let copies = clone_tokens(tokens);
                proof {
                    lemma_group_view(*delimiter, *tokens, *span);
                    lemma_group_view(*delimiter, copies, *span);
                }
                Token::Group { delimiter: *delimiter, tokens: copies, span: *span }
            },
            Token::Diagnostic { message, span } => Token::Diagnostic {
                message: message.clone(),
                span: *span,
            },
        }
    }
}

/// A copy of every token of a sequence, in order.
pub fn clone_tokens(tokens: &Vec<Token>) -> (copies: Vec<Token>)
    ensures
        copies.deep_view() == tokens.deep_view(),
    decreases tokens,
{
    let mut copies: Vec<Token> = Vec::new();
    let mut at: usize = 0;
    while at < tokens.len()
        invariant
            at <= tokens.len(),
            copies.len() == at,
            forall|k: int| 0 <= k < at ==> copies@[k]@ == tokens@[k]@,
        decreases tokens.len() - at,
    {
        let copy = tokens[at].clone();
        copies.push(copy);
        at = at + 1;
    }
    copies
}

} // verus!
