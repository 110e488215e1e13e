//! What holds of every expansion: that it is determined by its input, how long
//! it is, what an empty range leaves, and what marker mode leaves alone.

use crate::engine::{
    expansion, has_marker, markers_expanded, markers_expanded_tree, marks, repeated,
    tree_has_marker,
};
use crate::range::{RangeModel, RangeSpec};
use crate::substitute::{pastes, substituted, substituted_tree};
use crate::token::{
    spliced, spliced_concat, spliced_one, spliced_tree, trees, Delimiter, Spacing, Token, Tree,
};
use vstd::prelude::*;

verus! {

/// The expansion is determined by the values of the range and the body: two
/// outputs that `expand_all` can give for equal ranges and equal bodies are
/// equal, token for token and character for character.
pub proof fn expansion_is_determined(
    range: RangeSpec,
    body: Vec<Token>,
    out: Vec<Token>,
    same_range: RangeSpec,
    same_body: Vec<Token>,
    other_out: Vec<Token>,
)
    requires
        range@ == same_range@,
        trees(body@) == trees(same_body@),
        trees(out@) == expansion(trees(body@), range@),
        trees(other_out@) == expansion(trees(same_body@), same_range@),
    ensures
        trees(out@) == trees(other_out@),
{
}

/// The number of tokens that substitution gives does not depend on the value.
pub proof fn substituted_len_is_fixed(tokens: Seq<Tree>, variable: Seq<char>, one: int, other: int)
    ensures
        substituted(tokens, variable, one).len() == substituted(tokens, variable, other).len(),
    decreases tokens.len(),
{
    if tokens.len() == 0 {
    } else if pastes(tokens, variable) {
        substituted_len_is_fixed(tokens.skip(3), variable, one, other);
    } else {
        substituted_len_is_fixed(tokens.skip(1), variable, one, other);
    }
}

/// A repetition has as many tokens as one substitution, times the number of
/// values between the bounds.
pub proof fn repeated_len(unit: Seq<Tree>, variable: Seq<char>, lower: int, upper: int, value: int)
    ensures
        repeated(unit, variable, lower, upper).len() == substituted(unit, variable, value).len()
            * (if lower < upper {
            upper - lower
        } else {
            0
        }),
    decreases upper - lower,
{
    let each = substituted(unit, variable, value).len() as int;
    if lower < upper {
        repeated_len(unit, variable, lower + 1, upper, value);
        substituted_len_is_fixed(unit, variable, lower, value);
        assert(each + each * (upper - lower - 1) == each * (upper - lower)) by (nonlinear_arith);
    } else {
        assert(each * 0 == 0) by (nonlinear_arith);
    }
}

/// Without a marker the whole body is repeated: the output has as many tokens
/// as one substitution of the body, for whichever value, times the size of the
/// range.
pub proof fn whole_body_len(body: Seq<Tree>, range: RangeModel, value: int)
    requires
        !has_marker(body),
    ensures
        expansion(body, range).len() == substituted(body, range.variable, value).len()
            * range.size(),
{
    repeated_len(body, range.variable, range.lower, range.upper, value);
}

/// One tree with the markers in it replaced by `filler`.
pub open spec fn markers_replaced_tree(tree: Tree, filler: Seq<Tree>) -> Tree
    decreases tree,
{
    match tree {
        Tree::Group(delimiter, children) => Tree::Group(
            delimiter,
            markers_replaced(children, filler),
        ),
        _ => tree,
    }
}

/// A sequence with the three tokens of each marker, at every depth, replaced
/// by `filler`, and all else unchanged.
pub open spec fn markers_replaced(tokens: Seq<Tree>, filler: Seq<Tree>) -> Seq<Tree>
    decreases tokens,
{
    if tokens.len() == 0 {
        Seq::empty()
    } else if marks(tokens) {
        filler + markers_replaced(tokens.skip(3), filler)
    } else {
        seq![markers_replaced_tree(tokens[0], filler)] + markers_replaced(tokens.skip(1), filler)
    }
}

/// The invisible group that holds nothing.
pub open spec fn blank() -> Tree {
    Tree::Group(Delimiter::Invisible, Seq::empty())
}

proof fn empty_range_blanks_tree(tree: Tree, variable: Seq<char>, lower: int, upper: int)
    requires
        upper <= lower,
    ensures
        markers_expanded_tree(tree, variable, lower, upper) == markers_replaced_tree(
            tree,
            seq![blank()],
        ),
    decreases tree,
{
    match tree {
        Tree::Group(_, children) => empty_range_blanks_markers(children, variable, lower, upper),
        _ => {},
    }
}

/// Over an empty range, marker mode gives the body with every marker replaced
/// by an invisible group that holds nothing, and all else unchanged.
pub proof fn empty_range_blanks_markers(
    tokens: Seq<Tree>,
    variable: Seq<char>,
    lower: int,
    upper: int,
)
    requires
        upper <= lower,
    ensures
        markers_expanded(tokens, variable, lower, upper) == markers_replaced(
            tokens,
            seq![blank()],
        ),
    decreases tokens,
{
    if tokens.len() == 0 {
    } else if marks(tokens) {
        empty_range_blanks_markers(tokens.skip(3), variable, lower, upper);
    } else {
        empty_range_blanks_tree(tokens[0], variable, lower, upper);
        empty_range_blanks_markers(tokens.skip(1), variable, lower, upper);
    }
}

proof fn blanks_splice_away_tree(tree: Tree)
    ensures
        spliced_tree(markers_replaced_tree(tree, seq![blank()])) == spliced_tree(
            markers_replaced_tree(tree, Seq::empty()),
        ),
    decreases tree,
{
    match tree {
        Tree::Group(_, children) => blanks_splice_away(children),
        _ => {},
    }
}

/// Once invisible groups are spliced in place, a marker replaced by an
/// invisible group that holds nothing is a marker replaced by nothing.
pub proof fn blanks_splice_away(tokens: Seq<Tree>)
    ensures
        spliced(markers_replaced(tokens, seq![blank()])) == spliced(
            markers_replaced(tokens, Seq::empty()),
        ),
    decreases tokens,
{
    let none = Seq::<Tree>::empty();
    if tokens.len() == 0 {
    } else if marks(tokens) {
        blanks_splice_away(tokens.skip(3));
        spliced_concat(seq![blank()], markers_replaced(tokens.skip(3), seq![blank()]));
        spliced_one(blank());
        assert(spliced(seq![blank()]) =~= none);
        assert(none + markers_replaced(tokens.skip(3), none) =~= markers_replaced(
            tokens.skip(3),
            none,
        ));
    } else {
        blanks_splice_away_tree(tokens[0]);
        blanks_splice_away(tokens.skip(1));
        let with_blank = markers_replaced_tree(tokens[0], seq![blank()]);
        let without = markers_replaced_tree(tokens[0], none);
        spliced_concat(seq![with_blank], markers_replaced(tokens.skip(1), seq![blank()]));
        spliced_concat(seq![without], markers_replaced(tokens.skip(1), none));
        spliced_one(with_blank);
        spliced_one(without);
    }
}

/// The empty-range law. Where the body holds a marker and the range holds no
/// value, the expansion is the body with every marker replaced by an invisible
/// group that holds nothing; read with invisible groups spliced in place, it is
/// the body with every marker replaced by nothing. What is not marked is
/// unchanged.
pub proof fn empty_range_expansion(body: Seq<Tree>, range: RangeModel)
    requires
        has_marker(body),
        range.upper <= range.lower,
    ensures
        expansion(body, range) == markers_replaced(body, seq![blank()]),
        spliced(expansion(body, range)) == spliced(markers_replaced(body, Seq::empty())),
{
    empty_range_blanks_markers(body, range.variable, range.lower, range.upper);
    blanks_splice_away(body);
}

proof fn marker_free_tree_is_unchanged(tree: Tree, variable: Seq<char>, lower: int, upper: int)
    requires
        !tree_has_marker(tree),
    ensures
        markers_expanded_tree(tree, variable, lower, upper) == tree,
    decreases tree,
{
    match tree {
        Tree::Group(_, children) => marker_free_is_unchanged(children, variable, lower, upper),
        _ => {},
    }
}

/// Marker mode changes nothing in tokens that hold no marker: the variable
/// stays there as it is, whatever the range.
pub proof fn marker_free_is_unchanged(
    tokens: Seq<Tree>,
    variable: Seq<char>,
    lower: int,
    upper: int,
)
    requires
        !has_marker(tokens),
    ensures
        markers_expanded(tokens, variable, lower, upper) == tokens,
    decreases tokens,
{
    if tokens.len() == 0 {
        assert(tokens =~= Seq::empty());
    } else {
        marker_free_tree_is_unchanged(tokens[0], variable, lower, upper);
        marker_free_is_unchanged(tokens.skip(1), variable, lower, upper);
        assert(seq![tokens[0]] + tokens.skip(1) =~= tokens);
    }
}

/// A `#` that stands apart from what follows it starts no marker, whatever
/// follows: a run that begins with one and holds no marker further on or in its
/// groups is left as it is by marker mode.
pub proof fn hash_apart_is_no_marker(
    tokens: Seq<Tree>,
    variable: Seq<char>,
    lower: int,
    upper: int,
)
    requires
        tokens.len() > 0,
        tokens[0] == Tree::Punct('#', Spacing::Alone),
        !has_marker(tokens.skip(1)),
    ensures
        !marks(tokens),
        !has_marker(tokens),
        markers_expanded(tokens, variable, lower, upper) == tokens,
{
    assert(!marks(tokens));
    assert(!tree_has_marker(tokens[0]));
    assert(!has_marker(tokens));
    marker_free_is_unchanged(tokens, variable, lower, upper);
}

/// A `~` that stands apart from what follows it makes no paste: the name in
/// front of it is substituted by itself.
pub proof fn tilde_apart_is_no_paste(tokens: Seq<Tree>, variable: Seq<char>, value: int)
    requires
        tokens.len() >= 2,
        tokens[1] == Tree::Punct('~', Spacing::Alone),
    ensures
        !pastes(tokens, variable),
        substituted(tokens, variable, value) == seq![
            substituted_tree(tokens[0], variable, value),
        ] + substituted(tokens.skip(1), variable, value),
{
}

/// The three tokens of a marker around `unit`: a joint `#`, the group, and a
/// `*` of either spacing.
pub open spec fn marker(unit: Seq<Tree>, star: Spacing) -> Seq<Tree> {
    seq![
        Tree::Punct('#', Spacing::Joint),
        Tree::Group(Delimiter::Paren, unit),
        Tree::Punct('*', star),
    ]
}

/// Marker mode repeats what is marked and nothing else. Where `before` holds no
/// marker, the body `before`, marker around `unit`, `after` gives `before` as it
/// is, once; then one invisible group with `unit` repeated over the range, in
/// increasing order of the value; then `after` in marker mode.
pub proof fn marker_mode_repeats_only_the_marked(
    before: Seq<Tree>,
    unit: Seq<Tree>,
    star: Spacing,
    after: Seq<Tree>,
    variable: Seq<char>,
    lower: int,
    upper: int,
)
    requires
        !has_marker(before),
    ensures
        markers_expanded(before + marker(unit, star) + after, variable, lower, upper)
            == before + seq![
            Tree::Group(Delimiter::Invisible, repeated(unit, variable, lower, upper)),
        ] + markers_expanded(after, variable, lower, upper),
    decreases before.len(),
{
    let body = before + marker(unit, star) + after;
    let group = Tree::Group(Delimiter::Invisible, repeated(unit, variable, lower, upper));
    if before.len() == 0 {
        assert(marks(body));
        assert(body.skip(3) =~= after);
        assert(before + seq![group] + markers_expanded(after, variable, lower, upper) =~= seq![
            group,
        ] + markers_expanded(after, variable, lower, upper));
    } else {
        assert(body[0] == before[0]);
        if before.len() >= 2 {
            assert(body[1] == before[1]);
        }
        if before.len() >= 3 {
            assert(body[2] == before[2]);
        }
        assert(!marks(body));
        marker_free_tree_is_unchanged(before[0], variable, lower, upper);
        marker_mode_repeats_only_the_marked(
            before.skip(1),
            unit,
            star,
            after,
            variable,
            lower,
            upper,
        );
        assert(body.skip(1) =~= before.skip(1) + marker(unit, star) + after);
        assert(seq![before[0]] + (before.skip(1) + seq![group] + markers_expanded(
            after,
            variable,
            lower,
            upper,
        )) =~= before + seq![group] + markers_expanded(after, variable, lower, upper));
    }
}

} // verus!
