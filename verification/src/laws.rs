//! What holds of the expansion as a whole, proved from the definitions.

use vstd::prelude::*;
use crate::ast::SeqModel;
use crate::header::inside;
use crate::range::expand_over;
use crate::range::invalid_range;
use crate::section::has_marker;
use crate::section::marker_at_head;
use crate::section::section_width;
use crate::token::Delimiter;
use crate::token::Span;
use crate::token::Tree;
use crate::walker::head_width;
use crate::walker::rewrite;
use crate::walker::rewrite_head;
use crate::walker::splice_at_head;

verus! {

/// Whether the word `name` stands anywhere in `tokens`, at any depth.
pub open spec fn mentions(tokens: Seq<Tree>, name: Seq<char>) -> bool
    decreases tokens,
{
    if tokens.len() == 0 {
        false
    } else {
        ||| match tokens[0] {
            Tree::Ident { text, .. } => text == name,
            Tree::Group { tokens: inner, .. } => mentions(inner, name),
            _ => false,
        }
        ||| mentions(tokens.skip(1), name)
    }
}

/// Tokens that do not hold the binding name are rewritten to themselves,
/// whatever the index: there is then neither a binding identifier to
/// replace nor a splice to join.
pub proof fn law_rewrite_without_binding(tokens: Seq<Tree>, name: Seq<char>, index: nat)
    requires
        !mentions(tokens, name),
    ensures
        rewrite(tokens, name, index) == tokens,
    decreases tokens,
{
    if tokens.len() > 0 {
        // A splice would hold the binding name as its third token.
        assert(!splice_at_head(tokens, name)) by {
            if splice_at_head(tokens, name) {
                let second = tokens.skip(1);
                let third = second.skip(1);
                assert(mentions(third, name));
                assert(mentions(second, name));
            }
        }
        match tokens[0] {
            Tree::Group { tokens: inner, .. } => {
                law_rewrite_without_binding(inner, name, index);
            },
            _ => {},
        }
        assert(rewrite_head(tokens, name, index) == tokens[0]);
        law_rewrite_without_binding(tokens.skip(1), name, index);
    }
}

/// `tokens` wrapped in groups, one per layer, the first layer innermost.
pub open spec fn nest(tokens: Seq<Tree>, layers: Seq<(Delimiter, Span)>) -> Seq<Tree>
    decreases layers.len(),
{
    if layers.len() == 0 {
        tokens
    } else {
        seq![
            Tree::Group {
                delimiter: layers.last().0,
                tokens: nest(tokens, layers.drop_last()),
                span: layers.last().1,
            },
        ]
    }
}

/// Nesting does not change the rewrite: tokens inside any number of groups
/// are rewritten as they are on their own, and the groups stay around them.
pub proof fn law_rewrite_under_nesting(
    tokens: Seq<Tree>,
    layers: Seq<(Delimiter, Span)>,
    name: Seq<char>,
    index: nat,
)
    ensures
        rewrite(nest(tokens, layers), name, index) == nest(rewrite(tokens, name, index), layers),
    decreases layers.len(),
{
    if layers.len() > 0 {
        let wrapped = nest(tokens, layers);
        law_rewrite_under_nesting(tokens, layers.drop_last(), name, index);
        // The one group is rewritten inside, and nothing stands behind it.
        assert(rewrite(wrapped.skip(1), name, index) =~= Seq::<Tree>::empty());
        assert(rewrite(wrapped, name, index) =~= seq![rewrite_head(wrapped, name, index)]);
    }
}

/// The rewrite of a token sequence has the same length for every index:
/// the index changes texts, not the number of tokens.
pub proof fn law_rewrite_length(tokens: Seq<Tree>, name: Seq<char>, index: nat, other: nat)
    ensures
        rewrite(tokens, name, index).len() == rewrite(tokens, name, other).len(),
    decreases tokens.len(),
{
    if tokens.len() > 0 {
        law_rewrite_length(tokens.skip(head_width(tokens, name)), name, index, other);
    }
}

/// An expansion over `over` is made of `over.len()` copies of equal length,
/// one behind the other, and copy number `k` is the rewrite for the index
/// `over[k]`.
pub proof fn law_expansion_in_copies(tokens: Seq<Tree>, name: Seq<char>, over: Seq<nat>, k: int)
    requires
        0 <= k < over.len(),
    ensures
        expand_over(tokens, name, over).len() == over.len() * rewrite(tokens, name, 0).len(),
        0 <= k * rewrite(tokens, name, 0).len() <= (k + 1) * rewrite(tokens, name, 0).len()
            <= expand_over(tokens, name, over).len(),
        expand_over(tokens, name, over).subrange(
            k * rewrite(tokens, name, 0).len(),
            (k + 1) * rewrite(tokens, name, 0).len(),
        ) == rewrite(tokens, name, over[k]),
    decreases over.len(),
{
    let width = rewrite(tokens, name, 0).len() as int;
    let all = expand_over(tokens, name, over);
    let front = expand_over(tokens, name, over.drop_last());
    let back = rewrite(tokens, name, over.last());
    let n = over.len() as int;
    law_expansion_length(tokens, name, over);
    law_expansion_length(tokens, name, over.drop_last());
    law_rewrite_length(tokens, name, over.last(), 0);
    assert(0 <= k * width) by (nonlinear_arith)
        requires
            0 <= k,
            0 <= width,
    ;
    assert((k + 1) * width <= n * width) by (nonlinear_arith)
        requires
            k + 1 <= n,
            0 <= width,
    ;
    if k < n - 1 {
        // The copy stands in the front, which is an expansion of its own.
        law_expansion_in_copies(tokens, name, over.drop_last(), k);
        assert((k + 1) * width <= (n - 1) * width) by (nonlinear_arith)
            requires
                k + 1 <= n - 1,
                0 <= width,
        ;
        assert(all.subrange(k * width, (k + 1) * width) =~= front.subrange(
            k * width,
            (k + 1) * width,
        ));
    }
}

/// The length of an expansion over `over`: as many rewrites as `over` has
/// indices.
pub proof fn law_expansion_length(tokens: Seq<Tree>, name: Seq<char>, over: Seq<nat>)
    ensures
        expand_over(tokens, name, over).len() == over.len() * rewrite(tokens, name, 0).len(),
    decreases over.len(),
{
    let width = rewrite(tokens, name, 0).len() as int;
    let n = over.len() as int;
    if over.len() == 0 {
        assert(n * width == 0) by (nonlinear_arith)
            requires
                n == 0,
        ;
    } else {
        law_expansion_length(tokens, name, over.drop_last());
        law_rewrite_length(tokens, name, over.last(), 0);
        assert((n - 1) * width + width == n * width) by (nonlinear_arith);
    }
}

/// A body without a marked section, over a range that does not run
/// backwards, expands to one copy of the body per index: `to - from` of
/// them, and one more where the range takes in its end. All copies have the
/// length of one rewrite; an empty range gives no token at all.
pub proof fn law_whole_body_length(model: SeqModel)
    requires
        model.from <= model.to,
        !has_marker(model.content),
    ensures
        model.expansion() == expand_over(model.content, model.ident, model.indices()),
        model.indices().len() == if model.inclusive {
            model.to - model.from + 1
        } else {
            model.to - model.from
        },
        model.expansion().len() == model.indices().len() * rewrite(
            model.content,
            model.ident,
            0,
        ).len(),
        model.indices().len() == 0 ==> model.expansion() == Seq::<Tree>::empty(),
{
    law_expansion_length(model.content, model.ident, model.indices());
}

/// In the expansion of a body without a marked section, over a range that
/// does not run backwards, copy number `k` is the body rewritten for the
/// index `from + k`.
pub proof fn law_whole_body_copy(model: SeqModel, k: int)
    requires
        model.from <= model.to,
        !has_marker(model.content),
        0 <= k < model.indices().len(),
    ensures
        0 <= k * rewrite(model.content, model.ident, 0).len() <= (k + 1) * rewrite(
            model.content,
            model.ident,
            0,
        ).len() <= model.expansion().len(),
        model.expansion().subrange(
            k * rewrite(model.content, model.ident, 0).len(),
            (k + 1) * rewrite(model.content, model.ident, 0).len(),
        ) == rewrite(model.content, model.ident, (model.from + k) as nat),
{
    law_expansion_in_copies(model.content, model.ident, model.indices(), k);
}

/// Tokens without a marked section are left as they are by the scan for
/// sections.
pub proof fn law_sections_without_marker(model: SeqModel, tokens: Seq<Tree>)
    requires
        !has_marker(tokens),
    ensures
        model.sections(tokens) == tokens,
    decreases tokens,
{
    if tokens.len() > 0 {
        match tokens[0] {
            Tree::Group { tokens: inner, .. } => {
                law_sections_without_marker(model, inner);
            },
            _ => {},
        }
        law_sections_without_marker(model, tokens.skip(1));
        assert(model.section_head(tokens) == seq![tokens[0]]);
    }
}

/// One marked section between tokens that hold none: the tokens before and
/// behind the marker stay as they are, and the three tokens of the marker
/// are replaced by the expansion of the section over the range.
pub proof fn law_one_section(
    model: SeqModel,
    before: Seq<Tree>,
    marker: Seq<Tree>,
    after: Seq<Tree>,
)
    requires
        !has_marker(before),
        marker.len() == 3,
        marker_at_head(marker),
        !has_marker(after),
    ensures
        has_marker(before + marker + after),
        model.sections(before + marker + after) == before + model.over_range(inside(marker, 1))
            + after,
    decreases before.len(),
{
    let all = before + marker + after;
    let section = model.over_range(inside(marker, 1));
    if before.len() == 0 {
        // The marker stands at the head and what is behind it stays.
        assert(all.skip(3) =~= after);
        law_sections_without_marker(model, after);
        assert(model.section_head(all) == section);
    } else {
        // No marker begins with the first token: it would lie in `before`,
        // or reach into the marker, which begins with `#`.
        assert(!marker_at_head(all));
        assert(all.skip(1) =~= before.skip(1) + marker + after);
        match all[0] {
            Tree::Group { tokens: inner, .. } => {
                law_sections_without_marker(model, inner);
            },
            _ => {},
        }
        law_one_section(model, before.skip(1), marker, after);
        assert(model.section_head(all) == seq![before[0]]);
        assert(seq![before[0]] + (before.skip(1) + section + after) =~= before + section
            + after);
    }
}

/// The group with the given brackets around `inner`.
pub open spec fn group_of(delimiter: Delimiter, inner: Seq<Tree>, span: Span) -> Tree {
    Tree::Group { delimiter, tokens: inner, span }
}

/// A group between tokens that hold no marked section, and that is not
/// itself the group of a marker: the tokens around it stay as they are, and
/// the group is searched inside. With [`law_one_section`] this carries one
/// marked section through any depth of groups.
///
/// That the group is not the group of a marker does not depend on what is
/// inside it, so it is asked of the same tokens around the empty group.
pub proof fn law_sections_inside_group(
    model: SeqModel,
    before: Seq<Tree>,
    delimiter: Delimiter,
    inner: Seq<Tree>,
    span: Span,
    after: Seq<Tree>,
)
    requires
        !has_marker(before + seq![group_of(delimiter, Seq::empty(), span)] + after),
    ensures
        has_marker(before + seq![group_of(delimiter, inner, span)] + after) == has_marker(inner),
        model.sections(before + seq![group_of(delimiter, inner, span)] + after) == before
            + seq![group_of(delimiter, model.sections(inner), span)] + after,
    decreases before.len(),
{
    let hollow = before + seq![group_of(delimiter, Seq::empty(), span)] + after;
    let all = before + seq![group_of(delimiter, inner, span)] + after;
    let searched = group_of(delimiter, model.sections(inner), span);
    // Whether a marker begins with the first token does not depend on what
    // is inside the group.
    assert(marker_at_head(all) == marker_at_head(hollow));
    if before.len() == 0 {
        assert(all.skip(1) =~= after);
        assert(hollow.skip(1) =~= after);
        law_sections_without_marker(model, after);
        assert(model.section_head(all) == seq![searched]);
    } else {
        assert(all.skip(1) =~= before.skip(1) + seq![group_of(delimiter, inner, span)] + after);
        assert(hollow.skip(1) =~= before.skip(1) + seq![
            group_of(delimiter, Seq::empty(), span),
        ] + after);
        match before[0] {
            Tree::Group { tokens: first, .. } => {
                law_sections_without_marker(model, first);
            },
            _ => {},
        }
        law_sections_inside_group(model, before.skip(1), delimiter, inner, span, after);
        assert(model.section_head(all) == seq![before[0]]);
        assert(seq![before[0]] + (before.skip(1) + seq![searched] + after) =~= before
            + seq![searched] + after);
    }
}

/// Whether the token `wanted` stands anywhere in `tokens`, at any depth.
pub open spec fn shows(tokens: Seq<Tree>, wanted: Tree) -> bool
    decreases tokens,
{
    if tokens.len() == 0 {
        false
    } else {
        ||| tokens[0] == wanted
        ||| match tokens[0] {
            Tree::Group { tokens: inner, .. } => shows(inner, wanted),
            _ => false,
        }
        ||| shows(tokens.skip(1), wanted)
    }
}

/// A token that stands in one of two sequences stands in the two put
/// together.
proof fn lemma_shows_in_concat(front: Seq<Tree>, back: Seq<Tree>, wanted: Tree)
    requires
        shows(front, wanted) || shows(back, wanted),
    ensures
        shows(front + back, wanted),
    decreases front.len(),
{
    if front.len() > 0 {
        assert((front + back).skip(1) =~= front.skip(1) + back);
        if shows(front.skip(1), wanted) || shows(back, wanted) {
            lemma_shows_in_concat(front.skip(1), back, wanted);
        }
    }
}

/// Where the range runs backwards, every marked section is replaced by the
/// diagnostic, so a body that has a marked section shows it.
proof fn lemma_sections_show_diagnostic(model: SeqModel, tokens: Seq<Tree>)
    requires
        model.from > model.to,
        has_marker(tokens),
    ensures
        shows(model.sections(tokens), invalid_range(model.from_span)),
    decreases tokens,
{
    let wanted = invalid_range(model.from_span);
    let head = model.section_head(tokens);
    let rest = model.sections(tokens.skip(section_width(tokens)));
    if !marker_at_head(tokens) {
        match tokens[0] {
            Tree::Group { tokens: inner, .. } => {
                if has_marker(inner) {
                    lemma_sections_show_diagnostic(model, inner);
                }
            },
            _ => {},
        }
        if has_marker(tokens.skip(1)) {
            lemma_sections_show_diagnostic(model, tokens.skip(1));
        }
    }
    lemma_shows_in_concat(head, rest, wanted);
}

/// A range that runs backwards always shows: expanding any tokens over it
/// gives the one diagnostic "invalid range" at the first index and nothing
/// else, and the expansion of the invocation holds that diagnostic, so it
/// is never empty.
pub proof fn law_backwards_range(model: SeqModel, tokens: Seq<Tree>)
    requires
        model.from > model.to,
    ensures
        model.indices() == Seq::<nat>::empty(),
        model.over_range(tokens) == seq![invalid_range(model.from_span)],
        !has_marker(model.content) ==> model.expansion() == seq![
            invalid_range(model.from_span),
        ],
        shows(model.expansion(), invalid_range(model.from_span)),
        model.expansion().len() > 0,
{
    if has_marker(model.content) {
        lemma_sections_show_diagnostic(model, model.content);
    }
}

} // verus!
