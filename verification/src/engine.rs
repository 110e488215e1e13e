//! The expansion of a body over a range: either the whole body once per value,
//! or, where the body marks groups for repetition, only those groups.

use crate::range::{ExpansionContext, RangeModel, RangeSpec};
use crate::substitute::{substitute, substituted};
use crate::token::{copy_token, trees, Delimiter, Spacing, Token, Tree};
use vstd::prelude::*;

verus! {

/// `tokens` begins with a marker: a `#` joint with the parenthesised group
/// after it, then that group, then `*`. A `#` that stands apart from the group
/// makes no marker.
pub open spec fn marks(tokens: Seq<Tree>) -> bool {
    &&& tokens.len() >= 3
    &&& tokens[0] == Tree::Punct('#', Spacing::Joint)
    &&& tokens[1] is Group
    &&& tokens[1]->Group_0 == Delimiter::Paren
    &&& tokens[2] is Punct
    &&& tokens[2]->Punct_0 == '*'
}

/// A marker occurs in `tree`: it is a group, of any delimiter, whose children
/// hold one.
pub open spec fn tree_has_marker(tree: Tree) -> bool
    decreases tree,
{
    tree is Group && has_marker(tree->Group_1)
}

/// A marker occurs in `tokens`, at this level or at any depth below it.
pub open spec fn has_marker(tokens: Seq<Tree>) -> bool
    decreases tokens,
{
    if tokens.len() == 0 {
        false
    } else if marks(tokens) {
        true
    } else {
        tree_has_marker(tokens[0]) || has_marker(tokens.skip(1))
    }
}

/// The substitutions of `unit` for `lower`, `lower + 1`, ..., `upper - 1`, one
/// after the other; nothing where `upper` is not above `lower`.
pub open spec fn repeated(
    unit: Seq<Tree>,
    variable: Seq<char>,
    lower: int,
    upper: int,
) -> Seq<Tree>
    decreases upper - lower,
{
    if lower >= upper {
        Seq::empty()
    } else {
        substituted(unit, variable, lower) + repeated(unit, variable, lower + 1, upper)
    }
}

/// One tree in marker mode: a group keeps its delimiter and has the markers
/// among its children expanded; any other token stays as it is.
pub open spec fn markers_expanded_tree(
    tree: Tree,
    variable: Seq<char>,
    lower: int,
    upper: int,
) -> Tree
    decreases tree,
{
    match tree {
        Tree::Group(delimiter, children) => Tree::Group(
            delimiter,
            markers_expanded(children, variable, lower, upper),
        ),
        _ => tree,
    }
}

/// A sequence in marker mode, read from the left: the three tokens of a marker
/// give one invisible group that holds the marked group's contents repeated
/// over the range; every other token gives its [`markers_expanded_tree`], so
/// that nothing outside a marker is substituted.
pub open spec fn markers_expanded(
    tokens: Seq<Tree>,
    variable: Seq<char>,
    lower: int,
    upper: int,
) -> Seq<Tree>
    decreases tokens,
{
    if tokens.len() == 0 {
        Seq::empty()
    } else if marks(tokens) {
        let unit = tokens[1]->Group_1;
        seq![Tree::Group(Delimiter::Invisible, repeated(unit, variable, lower, upper))]
            + markers_expanded(tokens.skip(3), variable, lower, upper)
    } else {
        seq![markers_expanded_tree(tokens[0], variable, lower, upper)]
            + markers_expanded(tokens.skip(1), variable, lower, upper)
    }
}

/// What a body expands to over a range: with a marker anywhere in it, its
/// markers expanded; without one, the whole body repeated.
pub open spec fn expansion(body: Seq<Tree>, range: RangeModel) -> Seq<Tree> {
    if has_marker(body) {
        markers_expanded(body, range.variable, range.lower, range.upper)
    } else {
        repeated(body, range.variable, range.lower, range.upper)
    }
}

/// The contents of the marked group where a marker starts at index `i` of
/// `tokens`, and nothing where none does.
fn marked_unit(tokens: &Vec<Token>, i: usize) -> (unit: Option<&Vec<Token>>)
    requires
        i < tokens.len(),
    ensures
        unit is Some == marks(trees(tokens@).skip(i as int)),
        unit matches Some(contents) ==> trees(contents@) == trees(tokens@)[i + 1]->Group_1,
{
    let ghost rest = trees(tokens@).skip(i as int);
    proof {
        assert(rest[0] == tokens[i as int]@);
        if i + 2 < tokens.len() {
            assert(rest[1] == tokens[i + 1]@ && rest[2] == tokens[i + 2]@);
        }
    }
    if tokens.len() - i > 2 && tokens[i].is_joint_punct('#') && tokens[i + 2].is_punct('*') {
        match &tokens[i + 1] {
            Token::Group(Delimiter::Paren, contents) => Some(contents),
            _ => None,
        }
    } else {
        None
    }
}

/// The scan that decides the mode: whether a marker occurs anywhere in
/// `tokens`.
pub fn contains_marker(tokens: &Vec<Token>) -> (found: bool)
    ensures
        found == has_marker(trees(tokens@)),
    decreases tokens,
{
    let ghost source = trees(tokens@);
    let mut i: usize = 0;
    assert(source.skip(0) =~= source);
    while i < tokens.len()
        invariant
            i <= tokens.len(),
            source == trees(tokens@),
            has_marker(source) == has_marker(source.skip(i as int)),
        decreases tokens.len() - i,
    {
        let ghost rest = source.skip(i as int);
        assert(rest.len() > 0 && rest[0] == tokens[i as int]@);
        if marked_unit(tokens, i).is_some() {
            return true;
        }
        let inside = match &tokens[i] {
            Token::Group(_, children) => contains_marker(children),
            _ => false,
        };
        assert(inside == tree_has_marker(rest[0]));
        if inside {
            return true;
        }
        assert(rest.skip(1) =~= source.skip(i + 1));
        i += 1;
    }
    assert(source.skip(i as int) =~= Seq::empty());
    false
}

/// Stamps `unit` out once for every value of `range`, in increasing order.
pub fn repeat(unit: &Vec<Token>, range: &RangeSpec) -> (out: Vec<Token>)
    ensures
        trees(out@) == repeated(
            trees(unit@),
            range.variable@,
            range.lower as int,
            range.upper as int,
        ),
{
    let ghost source = trees(unit@);
    let mut out: Vec<Token> = Vec::new();
    let mut value: i64 = range.lower;
    assert(trees(out@) + repeated(source, range.variable@, value as int, range.upper as int)
        =~= repeated(source, range.variable@, range.lower as int, range.upper as int));
    while value < range.upper
        invariant
            source == trees(unit@),
            trees(out@) + repeated(source, range.variable@, value as int, range.upper as int)
                == repeated(source, range.variable@, range.lower as int, range.upper as int),
        decreases range.upper - value,
    {
        let ghost before = trees(out@);
        let context = ExpansionContext::new(&range.variable, value);
        let mut piece = substitute(unit, &context);
        let ghost stamped = trees(piece@);
        out.append(&mut piece);
        proof {
            assert(trees(out@) =~= before + stamped);
            assert(trees(out@) + repeated(source, range.variable@, value + 1, range.upper as int)
                =~= before + repeated(source, range.variable@, value as int, range.upper as int));
        }
        value += 1;
    }
    assert(trees(out@) =~= trees(out@) + Seq::<Tree>::empty());
    out
}

/// The rewrite of marker mode: every marker in `tokens`, at any depth, is
/// replaced by an invisible group that holds its contents repeated over
/// `range`; everything else is copied as it is.
pub fn expand_markers(tokens: &Vec<Token>, range: &RangeSpec) -> (out: Vec<Token>)
    ensures
        trees(out@) == markers_expanded(
            trees(tokens@),
            range.variable@,
            range.lower as int,
            range.upper as int,
        ),
    decreases tokens,
{
    let ghost source = trees(tokens@);
    let ghost variable = range.variable@;
    let ghost lower = range.lower as int;
    let ghost upper = range.upper as int;
    let mut out: Vec<Token> = Vec::new();
    let mut i: usize = 0;
    assert(source.skip(0) =~= source);
    assert(trees(out@) + markers_expanded(source, variable, lower, upper) =~= markers_expanded(
        source,
        variable,
        lower,
        upper,
    ));
    while i < tokens.len()
        invariant
            i <= tokens.len(),
            source == trees(tokens@),
            variable == range.variable@,
            lower == range.lower as int,
            upper == range.upper as int,
            trees(out@) + markers_expanded(source.skip(i as int), variable, lower, upper)
                == markers_expanded(source, variable, lower, upper),
        decreases tokens.len() - i,
    {
        let ghost rest = source.skip(i as int);
        let ghost before = trees(out@);
        proof {
            assert(rest.len() > 0 && rest[0] == tokens[i as int]@);
        }
        let (next, used): (Token, usize) = match marked_unit(tokens, i) {
            Some(unit) => (Token::Group(Delimiter::Invisible, repeat(unit, range)), 3),
            None => match &tokens[i] {
                Token::Group(delimiter, children) => (
                    Token::Group(*delimiter, expand_markers(children, range)),
                    1,
                ),
                other => (copy_token(other), 1),
            },
        };
        out.push(next);
        proof {
            let step = if marks(rest) {
                Tree::Group(
                    Delimiter::Invisible,
                    repeated(rest[1]->Group_1, variable, lower, upper),
                )
            } else {
                markers_expanded_tree(rest[0], variable, lower, upper)
            };
            assert(next@ == step);
            assert(rest.skip(used as int) =~= source.skip(i + used));
            assert(trees(out@) =~= before + seq![step]);
            assert(trees(out@) + markers_expanded(source.skip(i + used), variable, lower, upper)
                =~= before + markers_expanded(rest, variable, lower, upper));
        }
        i += used;
    }
    assert(source.skip(i as int) =~= Seq::empty());
    assert(trees(out@) =~= trees(out@) + Seq::<Tree>::empty());
    out
}

/// Expands `body` over `range`. A first pass looks for a marker. With one, only
/// the marked groups are repeated and the rest of the body appears once,
/// unsubstituted; without one, the whole body is repeated. An empty range, or
/// one whose bounds are out of order, gives no repetition at all.
pub fn expand_all(range: &RangeSpec, body: &Vec<Token>) -> (out: Vec<Token>)
    ensures
        trees(out@) == expansion(trees(body@), range@),
{
    if contains_marker(body) {
        expand_markers(body, range)
    } else {
        repeat(body, range)
    }
}

} // verus!
