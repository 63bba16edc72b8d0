//! The grammar of an invocation:
//! a binding name, `in`, the first index, `..` or `..=`, the end of the
//! range, and the body in braces, with nothing behind it.

use vstd::prelude::*;
use vstd::string::StringExecFns;
use crate::ast::SeqAst;
use crate::ast::SeqModel;
use crate::lexical::accepts_identifier;
use crate::lexical::int_reading;
use crate::lexical::is_identifier;
use crate::lexical::read_int;
use crate::lexical::IntReading;
use crate::token::clone_tokens;
use crate::token::lemma_group_view;
use crate::token::Delimiter;
use crate::token::Span;
use crate::token::Token;
use crate::token::Tree;

verus! {

/// What the grammar asks for at one place of the header.
#[derive(Clone, Copy, Debug, PartialEq, Eq, Structural)]
pub enum Expected {
    /// The binding name: an identifier that is no keyword.
    Identifier,
    /// The word `in`.
    KeywordIn,
    /// An integer literal.
    IntegerLiteral,
    /// `..` or `..=`.
    RangeOperator,
    /// The body in braces.
    BracedBody,
    /// Nothing more.
    EndOfInput,
}

/// What is wrong with a token of the header.
#[derive(Clone, Copy, Debug, PartialEq, Eq, Structural)]
pub enum HeaderFault {
    /// The token is not what the grammar expects at its place, or the input
    /// ends before it.
    MalformedHeader(Expected),
    /// The token is an integer literal whose value is no `u64`.
    BadIntegerLiteral,
}

/// Why a token sequence is no invocation. The error ends the expansion: no
/// body was found that could be given back.
#[derive(Clone, Copy, Debug, PartialEq, Eq)]
pub struct HeaderError {
    /// What is wrong.
    pub fault: HeaderFault,
    /// The place of the token in the input, counted from zero.
    pub at: usize,
    /// The span of that token, or `None` where the input ends before it.
    pub span: Option<Span>,
}

impl Expected {
    /// What is said to the user where the expected token is not found.
    pub open spec fn text(self) -> Seq<char> {
        match self {
            Expected::Identifier => "expected identifier"@,
            Expected::KeywordIn => "expected `in`"@,
            Expected::IntegerLiteral => "expected integer literal"@,
            Expected::RangeOperator => "expected `..`"@,
            Expected::BracedBody => "expected curly braces"@,
            Expected::EndOfInput => "unexpected token"@,
        }
    }

    /// What is said to the user where the expected token is not found.
    pub fn message(&self) -> (message: String)
        ensures
            message@ == self.text(),
    {
        match self {
            Expected::Identifier => "expected identifier".to_owned(),
            Expected::KeywordIn => "expected `in`".to_owned(),
            Expected::IntegerLiteral => "expected integer literal".to_owned(),
            Expected::RangeOperator => "expected `..`".to_owned(),
            Expected::BracedBody => "expected curly braces".to_owned(),
            Expected::EndOfInput => "unexpected token".to_owned(),
        }
    }
}

impl HeaderError {
    /// What the error says to the user. Where the input ended before the
    /// expected token, the message says so first.
    pub open spec fn text(self) -> Seq<char> {
        match self.fault {
            HeaderFault::MalformedHeader(expected) => if self.span is None {
                "unexpected end of input, "@ + expected.text()
            } else {
                expected.text()
            },
            HeaderFault::BadIntegerLiteral => "integer literal is out of range for `u64`"@,
        }
    }

    /// The message of the error.
    pub fn message(&self) -> (message: String)
        ensures
            message@ == self.text(),
    {
        match self.fault {
            HeaderFault::MalformedHeader(expected) => {
                if self.span.is_none() {
                    let mut message = "unexpected end of input, ".to_owned();
                    message.append(expected.message().as_str());
                    message
                } else {
                    expected.message()
                }
            },
            HeaderFault::BadIntegerLiteral => {
                "integer literal is out of range for `u64`".to_owned()
            },
        }
    }
}

/// What the lexical rules say of the three words of a header that the
/// grammar cannot judge by itself.
#[derive(Clone, Copy, Debug, PartialEq, Eq)]
pub struct Readings {
    /// Whether the first word is an identifier that is no keyword.
    pub binding: bool,
    /// How the literal of the first index reads.
    pub from: IntReading,
    /// How the literal of the end of the range reads.
    pub to: IntReading,
}

/// Whether the token at `at` is a word.
pub open spec fn ident_at(tokens: Seq<Tree>, at: int) -> bool {
    0 <= at < tokens.len() && tokens[at] is Ident
}

/// Whether the token at `at` is a literal.
pub open spec fn literal_at(tokens: Seq<Tree>, at: int) -> bool {
    0 <= at < tokens.len() && tokens[at] is Literal
}

/// The text of the word or the literal at `at`.
pub open spec fn text_at(tokens: Seq<Tree>, at: int) -> Seq<char> {
    if 0 <= at < tokens.len() {
        match tokens[at] {
            Tree::Ident { text, .. } => text,
            Tree::Literal { text, .. } => text,
            _ => Seq::empty(),
        }
    } else {
        Seq::empty()
    }
}

/// Whether the token at `at` is the word `in`.
pub open spec fn keyword_in_at(tokens: Seq<Tree>, at: int) -> bool {
    ident_at(tokens, at) && text_at(tokens, at) == "in"@
}

/// Whether the token at `at` is the punctuation character `ch`.
pub open spec fn punct_at(tokens: Seq<Tree>, at: int, ch: char) -> bool {
    &&& 0 <= at < tokens.len()
    &&& tokens[at] matches Tree::Punct { ch: c, .. } && c == ch
}

/// Whether the token at `at` is the punctuation character `ch` with the
/// next token right behind it.
pub open spec fn joint_at(tokens: Seq<Tree>, at: int, ch: char) -> bool {
    &&& 0 <= at < tokens.len()
    &&& tokens[at] matches Tree::Punct { ch: c, joint, .. } && c == ch && joint
}

/// Whether `..` begins at `at`.
pub open spec fn exclusive_at(tokens: Seq<Tree>, at: int) -> bool {
    joint_at(tokens, at, '.') && punct_at(tokens, at + 1, '.')
}

/// Whether `..=` begins at `at`.
pub open spec fn inclusive_at(tokens: Seq<Tree>, at: int) -> bool {
    joint_at(tokens, at, '.') && joint_at(tokens, at + 1, '.') && punct_at(tokens, at + 2, '=')
}

/// The place of the end of the range: behind `..=` where the header has it,
/// else behind `..`.
pub open spec fn upper_place(tokens: Seq<Tree>) -> int {
    if inclusive_at(tokens, 3) {
        6
    } else {
        5
    }
}

/// Whether the token at `at` is a group in braces.
pub open spec fn body_at(tokens: Seq<Tree>, at: int) -> bool {
    &&& 0 <= at < tokens.len()
    &&& tokens[at] matches Tree::Group { delimiter, .. } && delimiter == Delimiter::Brace
}

/// The span of the token at `at`, if the input reaches that far.
pub open spec fn span_at(tokens: Seq<Tree>, at: int) -> Option<Span> {
    if 0 <= at < tokens.len() {
        Some(tokens[at].span())
    } else {
        None
    }
}

/// The error for a token at `at` that is not what was expected.
pub open spec fn malformed(tokens: Seq<Tree>, expected: Expected, at: int) -> HeaderError {
    HeaderError {
        fault: HeaderFault::MalformedHeader(expected),
        at: at as usize,
        span: span_at(tokens, at),
    }
}

/// The index that the token at `at` stands for where it is a literal that
/// reads as `reading`, or the error that it gives.
pub open spec fn bound_at(tokens: Seq<Tree>, at: int, reading: IntReading) -> Result<
    u64,
    HeaderError,
> {
    if !literal_at(tokens, at) {
        Err(malformed(tokens, Expected::IntegerLiteral, at))
    } else {
        match reading {
            IntReading::Value(value) => Ok(value),
            IntReading::OutOfRange => Err(
                HeaderError {
                    fault: HeaderFault::BadIntegerLiteral,
                    at: at as usize,
                    span: span_at(tokens, at),
                },
            ),
            IntReading::NotInteger => Err(malformed(tokens, Expected::IntegerLiteral, at)),
        }
    }
}

/// The tokens inside the group at `at`.
pub open spec fn inside(tokens: Seq<Tree>, at: int) -> Seq<Tree> {
    match tokens[at] {
        Tree::Group { tokens: inner, .. } => inner,
        _ => Seq::empty(),
    }
}

/// What a token sequence says as an invocation, given the readings of its
/// words: read from the left, the first token that is not what the grammar
/// expects gives the error.
pub open spec fn header_with(tokens: Seq<Tree>, readings: Readings) -> Result<
    SeqModel,
    HeaderError,
> {
    let upper = upper_place(tokens);
    if !(ident_at(tokens, 0) && readings.binding) {
        Err(malformed(tokens, Expected::Identifier, 0))
    } else if !keyword_in_at(tokens, 1) {
        Err(malformed(tokens, Expected::KeywordIn, 1))
    } else {
        match bound_at(tokens, 2, readings.from) {
            Err(error) => Err(error),
            Ok(from) => if !exclusive_at(tokens, 3) {
                Err(malformed(tokens, Expected::RangeOperator, 3))
            } else {
                match bound_at(tokens, upper, readings.to) {
                    Err(error) => Err(error),
                    Ok(to) => if !body_at(tokens, upper + 1) {
                        Err(malformed(tokens, Expected::BracedBody, upper + 1))
                    } else if tokens.len() > upper + 2 {
                        Err(malformed(tokens, Expected::EndOfInput, upper + 2))
                    } else {
                        Ok(
                            SeqModel {
                                ident: text_at(tokens, 0),
                                from: from as nat,
                                from_span: tokens[2].span(),
                                to: to as nat,
                                inclusive: inclusive_at(tokens, 3),
                                content: inside(tokens, upper + 1),
                            },
                        )
                    },
                }
            },
        }
    }
}

/// How the lexical rules read the words of a header: the first token as a
/// binding name, and the literals at the places of the two bounds.
pub open spec fn readings(tokens: Seq<Tree>) -> Readings {
    Readings {
        binding: ident_at(tokens, 0) && is_identifier(text_at(tokens, 0)),
        from: if literal_at(tokens, 2) {
            int_reading(text_at(tokens, 2))
        } else {
            IntReading::NotInteger
        },
        to: if literal_at(tokens, upper_place(tokens)) {
            int_reading(text_at(tokens, upper_place(tokens)))
        } else {
            IntReading::NotInteger
        },
    }
}

/// What a token sequence says as an invocation.
pub open spec fn header(tokens: Seq<Tree>) -> Result<SeqModel, HeaderError> {
    header_with(tokens, readings(tokens))
}

/// The error for the token at `at`, which is not what was expected.
fn malformed_at(tokens: &Vec<Token>, expected: Expected, at: usize) -> (error: HeaderError)
    ensures
        error == malformed(tokens.deep_view(), expected, at as int),
{
    let span = if at < tokens.len() {
        Some(tokens[at].span())
    } else {
        None
    };
    HeaderError { fault: HeaderFault::MalformedHeader(expected), at, span }
}

/// Whether the token at `at` is the punctuation character `ch`.
fn is_punct(tokens: &Vec<Token>, at: usize, ch: char) -> (found: bool)
    ensures
        found == punct_at(tokens.deep_view(), at as int, ch),
{
    if at < tokens.len() {
        match &tokens[at] {
            Token::Punct { ch: c, .. } => *c == ch,
            _ => false,
        }
    } else {
        false
    }
}

/// Whether the token at `at` is the punctuation character `ch` with the next
/// token right behind it.
fn is_joint(tokens: &Vec<Token>, at: usize, ch: char) -> (found: bool)
    ensures
        found == joint_at(tokens.deep_view(), at as int, ch),
{
    if at < tokens.len() {
        match &tokens[at] {
            Token::Punct { ch: c, joint, .. } => *c == ch && *joint,
            _ => false,
        }
    } else {
        false
    }
}

/// Whether `..=` begins at `at`.
fn is_inclusive(tokens: &Vec<Token>, at: usize) -> (found: bool)
    requires
        at <= 3,
    ensures
        found == inclusive_at(tokens.deep_view(), at as int),
{
    is_joint(tokens, at, '.') && is_joint(tokens, at + 1, '.') && is_punct(tokens, at + 2, '=')
}

/// The index of the literal at `at`, which reads as `reading`.
fn read_bound(tokens: &Vec<Token>, at: usize, reading: IntReading) -> (bound: Result<
    u64,
    HeaderError,
>)
    ensures
        bound == bound_at(tokens.deep_view(), at as int, reading),
{
    if at < tokens.len() {
        match &tokens[at] {
            Token::Literal { span, .. } => match reading {
                IntReading::Value(value) => Ok(value),
                IntReading::OutOfRange => Err(
                    HeaderError { fault: HeaderFault::BadIntegerLiteral, at, span: Some(*span) },
                ),
                IntReading::NotInteger => Err(
                    malformed_at(tokens, Expected::IntegerLiteral, at),
                ),
            },
            _ => Err(malformed_at(tokens, Expected::IntegerLiteral, at)),
        }
    } else {
        Err(malformed_at(tokens, Expected::IntegerLiteral, at))
    }
}

/// How the literal at `at` reads; a token that is no literal is no integer.
fn reading_of(tokens: &Vec<Token>, at: usize) -> (reading: IntReading)
    ensures
        reading == if literal_at(tokens.deep_view(), at as int) {
            int_reading(text_at(tokens.deep_view(), at as int))
        } else {
            IntReading::NotInteger
        },
{
    if at < tokens.len() {
        match &tokens[at] {
            Token::Literal { text, .. } => read_int(text.as_str()),
            _ => IntReading::NotInteger,
        }
    } else {
        IntReading::NotInteger
    }
}

impl Readings {
    /// Reads the words of a header.
    pub fn of(tokens: &Vec<Token>) -> (read: Readings)
        ensures
            read == readings(tokens.deep_view()),
    {
        let binding = if tokens.len() > 0 {
            match &tokens[0] {
                Token::Ident { text, .. } => accepts_identifier(text.as_str()),
                _ => false,
            }
        } else {
            false
        };
        let upper: usize = if is_inclusive(tokens, 3) {
            6
        } else {
            5
        };
        Readings { binding, from: reading_of(tokens, 2), to: reading_of(tokens, upper) }
    }
}

impl SeqAst {
    /// Reads an invocation from its tokens.
    ///
    /// Succeeds exactly on the sequences that the grammar takes, and else
    /// gives the error of the first token that does not fit.
    pub fn parse(tokens: &Vec<Token>) -> (parsed: Result<SeqAst, HeaderError>)
        ensures
            match parsed {
                Ok(ast) => header(tokens.deep_view()) == Ok::<SeqModel, HeaderError>(ast@),
                Err(error) => header(tokens.deep_view()) == Err::<SeqModel, HeaderError>(error),
            },
    {
        let read = Readings::of(tokens);
        Self::parse_with(tokens, &read)
    }

    /// Reads an invocation from its tokens, with the readings of its words
    /// given by the caller.
    pub fn parse_with(tokens: &Vec<Token>, readings: &Readings) -> (parsed: Result<
        SeqAst,
        HeaderError,
    >)
        ensures
            match parsed {
                Ok(ast) => header_with(tokens.deep_view(), *readings) == Ok::<
                    SeqModel,
                    HeaderError,
                >(ast@),
                Err(error) => header_with(tokens.deep_view(), *readings) == Err::<
                    SeqModel,
                    HeaderError,
                >(error),
            },
    {
        let ident = match binding_name(tokens) {
            Some(ident) if readings.binding => ident,
            _ => {
                return Err(malformed_at(tokens, Expected::Identifier, 0));
            },
        };
        if !is_keyword_in(tokens, 1) {
            return Err(malformed_at(tokens, Expected::KeywordIn, 1));
        }
        let from = match read_bound(tokens, 2, readings.from) {
            Ok(from) => from,
            Err(error) => {
                return Err(error);
            },
        };
        let from_span = tokens[2].span();
        if !(is_joint(tokens, 3, '.') && is_punct(tokens, 4, '.')) {
            return Err(malformed_at(tokens, Expected::RangeOperator, 3));
        }
        let inclusive = is_inclusive(tokens, 3);
        let upper: usize = if inclusive {
            6
        } else {
            5
        };
        let to = match read_bound(tokens, upper, readings.to) {
            Ok(to) => to,
            Err(error) => {
                return Err(error);
            },
        };
        let content = match braced_body(tokens, upper + 1) {
            Some(content) => content,
            None => {
                return Err(malformed_at(tokens, Expected::BracedBody, upper + 1));
            },
        };
        if tokens.len() > upper + 2 {
            return Err(malformed_at(tokens, Expected::EndOfInput, upper + 2));
        }
        Ok(SeqAst { ident, from, from_span, to, inclusive, content })
    }
}

/// The text of the first token, where it is a word.
fn binding_name(tokens: &Vec<Token>) -> (name: Option<String>)
    ensures
        name is Some == ident_at(tokens.deep_view(), 0),
        name matches Some(text) ==> text@ == text_at(tokens.deep_view(), 0),
{
    if tokens.len() == 0 {
        return None;
    }
    match &tokens[0] {
        Token::Ident { text, .. } => Some(text.clone()),
        _ => None,
    }
}

/// Whether the token at `at` is the word `in`.
fn is_keyword_in(tokens: &Vec<Token>, at: usize) -> (found: bool)
    ensures
        found == keyword_in_at(tokens.deep_view(), at as int),
{
    if at < tokens.len() {
        match &tokens[at] {
            Token::Ident { text, .. } => {
                let keyword = "in".to_owned();
                *text == keyword
            },
            _ => false,
        }
    } else {
        false
    }
}

/// A copy of the tokens inside the group at `at`, where that token is a
/// group in braces.
fn braced_body(tokens: &Vec<Token>, at: usize) -> (body: Option<Vec<Token>>)
    ensures
        body is Some == body_at(tokens.deep_view(), at as int),
        body matches Some(inner) ==> inner.deep_view() == inside(
            tokens.deep_view(),
            at as int,
        ),
{
    if at < tokens.len() {
        match &tokens[at] {
            Token::Group { delimiter, tokens: inner, span } => {
                proof {
                    lemma_group_view(*delimiter, *inner, *span);
                }
                match delimiter {
                    Delimiter::Brace => Some(clone_tokens(inner)),
                    _ => None,
                }
            },
            _ => None,
        }
    } else {
        None
    }
}

} // verus!
