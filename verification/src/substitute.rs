//! Substitution: the rewrite of a token sequence for one value of the loop
//! variable.

use crate::decimal::{decimal_string, decimal_text};
use crate::range::ExpansionContext;
use crate::token::{trees, Spacing, Token, Tree};
use vstd::prelude::*;
use vstd::string::StringExecFns;

verus! {

/// `tokens` begins with a paste: a name other than the variable, then a `~`
/// joint with the token after it, then the variable. A `~` that stands apart
/// from the variable makes no paste.
pub open spec fn pastes(tokens: Seq<Tree>, variable: Seq<char>) -> bool {
    &&& tokens.len() >= 3
    &&& tokens[0] is Name
    &&& tokens[0] != Tree::Name(variable)
    &&& tokens[1] == Tree::Punct('~', Spacing::Joint)
    &&& tokens[2] == Tree::Name(variable)
}

/// The name that a paste of `prefix` makes for `value`: the prefix's text
/// followed by the value in decimal.
pub open spec fn pasted(prefix: Tree, value: int) -> Tree {
    Tree::Name(prefix->Name_0 + decimal_text(value))
}

/// One tree after substitution: a group keeps its delimiter and has its
/// children substituted; the variable becomes the literal that writes `value`;
/// any other token stays as it is.
pub open spec fn substituted_tree(tree: Tree, variable: Seq<char>, value: int) -> Tree
    decreases tree,
{
    match tree {
        Tree::Group(delimiter, children) => Tree::Group(
            delimiter,
            substituted(children, variable, value),
        ),
        Tree::Name(text) => if text == variable {
            Tree::Literal(decimal_text(value))
        } else {
            tree
        },
        _ => tree,
    }
}

/// A sequence after substitution, read from the left: a paste gives one name
/// in place of its three tokens, every other token gives its
/// [`substituted_tree`].
pub open spec fn substituted(tokens: Seq<Tree>, variable: Seq<char>, value: int) -> Seq<Tree>
    decreases tokens,
{
    if tokens.len() == 0 {
        Seq::empty()
    } else if pastes(tokens, variable) {
        seq![pasted(tokens[0], value)] + substituted(tokens.skip(3), variable, value)
    } else {
        seq![substituted_tree(tokens[0], variable, value)]
            + substituted(tokens.skip(1), variable, value)
    }
}

/// Rewrites `tokens` for one iteration: every use of the variable becomes the
/// iteration's value, and every paste becomes one name.
pub fn substitute(tokens: &Vec<Token>, context: &ExpansionContext) -> (out: Vec<Token>)
    ensures
        trees(out@) == substituted(
            trees(tokens@),
            context.variable@,
            context.current_value as int,
        ),
    decreases tokens,
{
    let ghost source = trees(tokens@);
    let ghost variable = context.variable@;
    let ghost value = context.current_value as int;
    let mut out: Vec<Token> = Vec::new();
    let mut i: usize = 0;
    assert(source.skip(0) =~= source);
    assert(trees(out@) + substituted(source, variable, value) =~= substituted(
        source,
        variable,
        value,
    ));
    while i < tokens.len()
        invariant
            i <= tokens.len(),
            source == trees(tokens@),
            variable == context.variable@,
            value == context.current_value as int,
            trees(out@) + substituted(source.skip(i as int), variable, value) == substituted(
                source,
                variable,
                value,
            ),
        decreases tokens.len() - i,
    {
        let ghost rest = source.skip(i as int);
        let ghost before = trees(out@);
        proof {
            assert(rest.len() > 0 && rest[0] == tokens[i as int]@);
            if i + 2 < tokens.len() {
                assert(rest[1] == tokens[i + 1]@ && rest[2] == tokens[i + 2]@);
            }
        }
        let (next, used): (Token, usize) = match &tokens[i] {
            Token::Group(delimiter, children) => (
                Token::Group(*delimiter, substitute(children, context)),
                1,
            ),
            Token::Name(text) => {
                if *text == context.variable {
                    (Token::Literal(decimal_string(context.current_value)), 1)
                } else if tokens.len() - i > 2 && tokens[i + 1].is_joint_punct('~')
                    && tokens[i + 2].is_name(&context.variable) {
                    let mut name = text.clone();
                    name.append(decimal_string(context.current_value).as_str());
                    (Token::Name(name), 3)
                } else {
                    (Token::Name(text.clone()), 1)
                }
            },
            Token::Literal(text) => (Token::Literal(text.clone()), 1),
            Token::Punct(ch, spacing) => (Token::Punct(*ch, *spacing), 1),
        };
        out.push(next);
        proof {
            let step = if pastes(rest, variable) {
                pasted(rest[0], value)
            } else {
                substituted_tree(rest[0], variable, value)
            };
            assert(used == 3 <==> pastes(rest, variable));
            assert(next@ == step);
            assert(rest.skip(used as int) =~= source.skip(i + used));
            assert(trees(out@) =~= before + seq![step]);
            assert(trees(out@) + substituted(source.skip(i + used), variable, value) =~= before
                + substituted(rest, variable, value));
        }
        i += used;
    }
    assert(source.skip(i as int) =~= Seq::empty());
    assert(trees(out@) =~= trees(out@) + Seq::<Tree>::empty());
    out
}

} // verus!
