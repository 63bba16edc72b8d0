//! The indices of an invocation and the expansion of a token sequence over
//! them.

use vstd::prelude::*;
use crate::ast::SeqAst;
use crate::ast::SeqModel;
use crate::token::Span;
use crate::token::Token;
use crate::token::Tree;
use crate::walker::rewrite;

verus! {

/// How many indices lie between `from` and `to`: none where the range runs
/// backwards, and one more where `to` itself counts.
pub open spec fn count(from: nat, to: nat, inclusive: bool) -> nat {
    if from > to {
        0
    } else if inclusive {
        (to - from + 1) as nat
    } else {
        (to - from) as nat
    }
}

/// The indices from `from` to `to` in ascending order.
pub open spec fn indices(from: nat, to: nat, inclusive: bool) -> Seq<nat> {
    Seq::new(count(from, to, inclusive), |k: int| (from + k) as nat)
}

/// The indices of a range that does not run backwards. They are not stored:
/// a caller walks them with [`ExpansionRange::first`] and
/// [`ExpansionRange::next`], as often as it likes.
#[derive(Clone, Copy, Debug, PartialEq, Eq)]
pub struct ExpansionRange {
    start: u64,
    end: u64,
    inclusive: bool,
}

impl ExpansionRange {
    #[verifier::type_invariant]
    spec fn ordered(self) -> bool {
        self.start <= self.end
    }

    /// The first index.
    pub closed spec fn lower(self) -> nat {
        self.start as nat
    }

    /// The end of the range.
    pub closed spec fn upper(self) -> nat {
        self.end as nat
    }

    /// Whether the end of the range is an index.
    pub closed spec fn closed_above(self) -> bool {
        self.inclusive
    }

    /// Whether `i` is an index of the range.
    pub open spec fn holds(self, i: nat) -> bool {
        self.lower() <= i && (i < self.upper() || (self.closed_above() && i == self.upper()))
    }

    /// The range from `start` to `end`, unless it runs backwards.
    pub fn new(start: u64, end: u64, inclusive: bool) -> (range: Option<ExpansionRange>)
        ensures
            range is Some == (start <= end),
            range matches Some(r) ==> r.lower() == start && r.upper() == end && r.closed_above()
                == inclusive,
    {
        if start <= end {
            Some(ExpansionRange { start, end, inclusive })
        } else {
            None
        }
    }

    /// Whether `i` is an index of the range.
    pub fn contains(&self, i: u64) -> (found: bool)
        ensures
            found == self.holds(i as nat),
    {
        self.start <= i && (i < self.end || (self.inclusive && i == self.end))
    }

    /// The first index, if the range has one.
    pub fn first(&self) -> (index: Option<u64>)
        ensures
            self.lower() <= self.upper(),
            index == if self.holds(self.lower()) {
                Some(self.lower() as u64)
            } else {
                None
            },
    {
        proof {
            use_type_invariant(self);
        }
        if self.start < self.end || self.inclusive {
            Some(self.start)
        } else {
            None
        }
    }

    /// The index that follows `i`, if `i` is an index and not the last one.
    pub fn next(&self, i: u64) -> (index: Option<u64>)
        ensures
            index == if self.holds(i as nat) && self.holds((i + 1) as nat) {
                Some((i + 1) as u64)
            } else {
                None
            },
    {
        proof {
            use_type_invariant(self);
        }
        if self.start <= i && i < self.end && (i + 1 < self.end || self.inclusive) {
            Some(i + 1)
        } else {
            None
        }
    }
}

impl View for ExpansionRange {
    type V = Seq<nat>;

    /// The indices in ascending order.
    open spec fn view(&self) -> Seq<nat> {
        indices(self.lower(), self.upper(), self.closed_above())
    }
}

/// The numbers that a range holds are its indices, each once and in
/// ascending order.
pub proof fn law_range_indices(range: ExpansionRange, i: nat)
    requires
        range.lower() <= range.upper(),
    ensures
        range.holds(i) <==> range@.contains(i),
        range.holds(i) ==> range@[i - range.lower()] == i,
        forall|j: int, k: int| 0 <= j < k < range@.len() ==> range@[j] < range@[k],
{
    if range.holds(i) {
        assert(range@[i - range.lower()] == i);
    }
}

/// The rewrites of `tokens` for each of `over`, one behind the other.
pub open spec fn expand_over(tokens: Seq<Tree>, name: Seq<char>, over: Seq<nat>) -> Seq<Tree>
    decreases over.len(),
{
    if over.len() == 0 {
        Seq::empty()
    } else {
        expand_over(tokens, name, over.drop_last()) + rewrite(tokens, name, over.last())
    }
}

/// The diagnostic for a range that runs backwards.
pub open spec fn invalid_range(span: Span) -> Tree {
    Tree::Diagnostic { message: "invalid range"@, span }
}

impl SeqModel {
    /// The indices of the invocation: none where its range runs backwards.
    pub open spec fn indices(self) -> Seq<nat> {
        indices(self.from, self.to, self.inclusive)
    }

    /// What takes the place of `tokens` when they are expanded over the
    /// range: one rewrite per index, or the one diagnostic of a range that
    /// runs backwards.
    pub open spec fn over_range(self, tokens: Seq<Tree>) -> Seq<Tree> {
        if self.from > self.to {
            seq![invalid_range(self.from_span)]
        } else {
            expand_over(tokens, self.ident, self.indices())
        }
    }
}

impl SeqAst {
    /// The indices of the invocation, or the diagnostic that stands for a
    /// range that runs backwards. The diagnostic is placed at the first
    /// index.
    pub fn range(&self) -> (range: Result<ExpansionRange, Token>)
        ensures
            match range {
                Ok(r) => self.from <= self.to && r@ == self@.indices(),
                Err(diagnostic) => self.from > self.to && diagnostic@ == invalid_range(
                    self.from_span,
                ),
            },
    {
        match ExpansionRange::new(self.from, self.to, self.inclusive) {
            Some(range) => Ok(range),
            None => Err(
                Token::Diagnostic { message: "invalid range".to_owned(), span: self.from_span },
            ),
        }
    }

    /// Expands `tokens` over the range: the rewrite for the first index,
    /// then for the next, up to the last. A range that runs backwards gives
    /// its diagnostic and nothing else.
    pub fn expand_range(&self, tokens: &Vec<Token>) -> (out: Vec<Token>)
        ensures
            out.deep_view() == self@.over_range(tokens.deep_view()),
    {
        let range = match self.range() {
            Ok(range) => range,
            Err(diagnostic) => {
                let mut out = Vec::new();
                out.push(diagnostic);
                return out;
            },
        };
        let ghost all = tokens.deep_view();
        let ghost name = self.ident@;
        let ghost over = range@;
        let mut out: Vec<Token> = Vec::new();
        let mut current = range.first();
        let ghost mut done: nat = 0;
        while current.is_some()
            invariant
                all == tokens.deep_view(),
                name == self.ident@,
                over == range@,
                done <= over.len(),
                current == if done < over.len() {
                    Some(over[done as int] as u64)
                } else {
                    None
                },
                current matches Some(i) ==> i == range.lower() + done,
                out.deep_view() == expand_over(all, name, over.take(done as int)),
            decreases over.len() - done,
        {
            let i = current.unwrap();
            let mut pass = self.expand_index(tokens, i);
            out.append(&mut pass);
            current = range.next(i);
            proof {
                // One more index is done: `i`, the last of the first `done + 1`.
                assert(over.take(done as int + 1).drop_last() =~= over.take(done as int));
                done = done + 1;
            }
        }
        proof {
            assert(over.take(done as int) =~= over);
        }
        out
    }
}

} // verus!
