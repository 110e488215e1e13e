//! The token tree that the expansion works on, and its mathematical model.

use vstd::prelude::*;

verus! {

/// How a group of tokens is bracketed.
#[derive(Clone, Copy, Debug, PartialEq, Eq, Structural)]
pub enum Delimiter {
    /// `( ... )`
    Paren,
    /// `[ ... ]`
    Bracket,
    /// `{ ... }`
    Brace,
    /// No visible bracket: a run of tokens that is spliced in as one unit.
    Invisible,
}

/// Whether a punctuation character is joint with the token after it.
#[derive(Clone, Copy, Debug, PartialEq, Eq, Structural)]
pub enum Spacing {
    /// Isolated: something stands between the character and the next token, or
    /// no token follows it in its sequence.
    Alone,
    /// The next token of the sequence follows immediately, whatever kind of
    /// token it is.
    Joint,
}

/// One node of a token tree.
#[derive(Debug, PartialEq, Eq)]
pub enum Token {
    /// An identifier-like word.
    Name(String),
    /// A numeric or string constant, by its source text.
    Literal(String),
    /// A single punctuation character, and whether the next token follows it
    /// immediately.
    Punct(char, Spacing),
    /// A bracketed sequence of tokens.
    Group(Delimiter, Vec<Token>),
}

/// The mathematical value of a [`Token`]: texts are sequences of characters,
/// children are a sequence of trees.
pub enum Tree {
    Name(Seq<char>),
    Literal(Seq<char>),
    Punct(char, Spacing),
    Group(Delimiter, Seq<Tree>),
}

/// The trees of a sequence of tokens, in order.
pub open spec fn trees(tokens: Seq<Token>) -> Seq<Tree>
    decreases tokens,
{
    Seq::new(
        tokens.len(),
        |i: int|
            if 0 <= i < tokens.len() {
                tokens[i].view()
            } else {
                arbitrary()
            },
    )
}

impl View for Token {
    type V = Tree;

    open spec fn view(&self) -> Tree
        decreases self,
    {
        match self {
            Token::Name(text) => Tree::Name(text@),
            Token::Literal(text) => Tree::Literal(text@),
            Token::Punct(ch, spacing) => Tree::Punct(*ch, *spacing),
            Token::Group(delimiter, children) => Tree::Group(*delimiter, trees(children@)),
        }
    }
}

impl Token {
    /// Whether this token is the punctuation character `ch`, however it is
    /// spaced.
    pub fn is_punct(&self, ch: char) -> (yes: bool)
        ensures
            yes == (self@ is Punct && self@->Punct_0 == ch),
    {
        match self {
            Token::Punct(c, _) => *c == ch,
            _ => false,
        }
    }

    /// Whether this token is the punctuation character `ch`, joint with the
    /// token after it.
    pub fn is_joint_punct(&self, ch: char) -> (yes: bool)
        ensures
            yes == (self@ == Tree::Punct(ch, Spacing::Joint)),
    {
        match self {
            Token::Punct(c, Spacing::Joint) => *c == ch,
            _ => false,
        }
    }

    /// Whether this token is the name `text`.
    pub fn is_name(&self, text: &String) -> (yes: bool)
        ensures
            yes == (self@ == Tree::Name(text@)),
    {
        match self {
            Token::Name(name) => *name == *text,
            _ => false,
        }
    }
}

/// What one tree stands for where invisible groups are looked through at this
/// level: an invisible group stands for what its children stand for, any other
/// token for itself, with all that is in it as it is.
pub open spec fn opened_tree(tree: Tree) -> Seq<Tree>
    decreases tree,
{
    match tree {
        Tree::Group(delimiter, children) => if delimiter == Delimiter::Invisible {
            opened(children)
        } else {
            seq![tree]
        },
        _ => seq![tree],
    }
}

/// A sequence with the invisible groups of its top level looked through. What
/// stands in a group with brackets stays as it is.
pub open spec fn opened(tokens: Seq<Tree>) -> Seq<Tree>
    decreases tokens,
{
    if tokens.len() == 0 {
        Seq::empty()
    } else {
        opened_tree(tokens[0]) + opened(tokens.skip(1))
    }
}

/// The index, among the tokens of the top level, of the token that the token
/// with index `position` among the [`opened`] tokens is or stands in; the number
/// of tokens where there is no token with that index.
pub open spec fn holder_of(tokens: Seq<Tree>, position: int) -> int
    decreases tokens.len(),
{
    if tokens.len() == 0 || position < 0 {
        0
    } else if position < opened_tree(tokens[0]).len() {
        0
    } else {
        1 + holder_of(tokens.skip(1), position - opened_tree(tokens[0]).len())
    }
}

/// Finds the token of the top level that a position among the looked-through
/// tokens belongs to: its index, or the number of tokens where the position is
/// behind them all.
pub fn holder(tokens: &Vec<Token>, position: usize) -> (top: usize)
    ensures
        top == holder_of(trees(tokens@), position as int),
        top <= tokens.len(),
{
    let ghost source = trees(tokens@);
    let mut i: usize = 0;
    let mut seen: usize = 0;
    assert(source.skip(0) =~= source);
    while i < tokens.len()
        invariant
            i <= tokens.len(),
            seen <= position,
            source == trees(tokens@),
            holder_of(source, position as int) == i + holder_of(
                source.skip(i as int),
                position - seen,
            ),
        decreases tokens.len() - i,
    {
        let ghost rest = source.skip(i as int);
        assert(rest.len() > 0 && rest[0] == tokens[i as int]@);
        let count = match &tokens[i] {
            Token::Group(Delimiter::Invisible, children) => open(children).len(),
            _ => 1,
        };
        assert(count == opened_tree(rest[0]).len());
        if position - seen < count {
            return i;
        }
        assert(rest.skip(1) =~= source.skip(i + 1));
        seen += count;
        i += 1;
    }
    i
}

/// Looks through the invisible groups of the top level of `tokens`.
pub fn open(tokens: &Vec<Token>) -> (out: Vec<Token>)
    ensures
        trees(out@) == opened(trees(tokens@)),
    decreases tokens,
{
    let ghost source = trees(tokens@);
    let mut out: Vec<Token> = Vec::new();
    let mut i: usize = 0;
    assert(source.skip(0) =~= source);
    assert(trees(out@) + opened(source) =~= opened(source));
    while i < tokens.len()
        invariant
            i <= tokens.len(),
            source == trees(tokens@),
            trees(out@) + opened(source.skip(i as int)) == opened(source),
        decreases tokens.len() - i,
    {
        let ghost rest = source.skip(i as int);
        let ghost before = trees(out@);
        assert(rest.len() > 0 && rest[0] == tokens[i as int]@);
        match &tokens[i] {
            Token::Group(Delimiter::Invisible, children) => {
                let mut inner = open(children);
                out.append(&mut inner);
            },
            other => {
                out.push(copy_token(other));
            },
        }
        proof {
            assert(rest.skip(1) =~= source.skip(i + 1));
            assert(trees(out@) =~= before + opened_tree(rest[0]));
            assert(trees(out@) + opened(source.skip(i + 1)) =~= before + opened(rest));
        }
        i += 1;
    }
    assert(source.skip(i as int) =~= Seq::empty());
    assert(trees(out@) =~= trees(out@) + Seq::<Tree>::empty());
    out
}

/// What one tree reads as once invisible groups are spliced in place: an
/// invisible group gives its spliced children, any other group gives itself
/// with its children spliced, a leaf gives itself.
pub open spec fn spliced_tree(tree: Tree) -> Seq<Tree>
    decreases tree,
{
    match tree {
        Tree::Group(delimiter, children) => if delimiter == Delimiter::Invisible {
            spliced(children)
        } else {
            seq![Tree::Group(delimiter, spliced(children))]
        },
        _ => seq![tree],
    }
}

/// What a sequence reads as once invisible groups are spliced in place, at
/// every depth.
pub open spec fn spliced(tokens: Seq<Tree>) -> Seq<Tree>
    decreases tokens,
{
    if tokens.len() == 0 {
        Seq::empty()
    } else {
        spliced_tree(tokens[0]) + spliced(tokens.skip(1))
    }
}

/// A sequence of one tree splices to what the tree splices to.
pub proof fn spliced_one(tree: Tree)
    ensures
        spliced(seq![tree]) == spliced_tree(tree),
{
    let rest = seq![tree].skip(1);
    assert(rest =~= Seq::<Tree>::empty());
    assert(spliced(rest) =~= Seq::<Tree>::empty());
    assert(spliced(seq![tree]) =~= spliced_tree(tree) + spliced(rest));
}

/// Splicing goes through concatenation.
pub proof fn spliced_concat(front: Seq<Tree>, back: Seq<Tree>)
    ensures
        spliced(front + back) == spliced(front) + spliced(back),
    decreases front.len(),
{
    if front.len() == 0 {
        assert(front + back =~= back);
        assert(spliced(front) + spliced(back) =~= spliced(back));
    } else {
        spliced_concat(front.skip(1), back);
        assert((front + back).skip(1) =~= front.skip(1) + back);
        assert(spliced(front + back) =~= spliced(front) + spliced(back));
    }
}

/// Splices invisible groups in place: the tokens as they read to one who does
/// not see such groups.
pub fn splice(tokens: &Vec<Token>) -> (out: Vec<Token>)
    ensures
        trees(out@) == spliced(trees(tokens@)),
    decreases tokens,
{
    let ghost source = trees(tokens@);
    let mut out: Vec<Token> = Vec::new();
    let mut i: usize = 0;
    assert(source.skip(0) =~= source);
    assert(trees(out@) + spliced(source) =~= spliced(source));
    while i < tokens.len()
        invariant
            i <= tokens.len(),
            source == trees(tokens@),
            trees(out@) + spliced(source.skip(i as int)) == spliced(source),
        decreases tokens.len() - i,
    {
        let ghost rest = source.skip(i as int);
        let ghost before = trees(out@);
        assert(rest.len() > 0 && rest[0] == tokens[i as int]@);
        match &tokens[i] {
            Token::Group(Delimiter::Invisible, children) => {
                let mut inner = splice(children);
                out.append(&mut inner);
            },
            Token::Group(delimiter, children) => {
                out.push(Token::Group(*delimiter, splice(children)));
            },
            other => {
                out.push(copy_token(other));
            },
        }
        proof {
            assert(rest.skip(1) =~= source.skip(i + 1));
            assert(trees(out@) =~= before + spliced_tree(rest[0]));
            assert(trees(out@) + spliced(source.skip(i + 1)) =~= before + spliced(rest));
        }
        i += 1;
    }
    assert(source.skip(i as int) =~= Seq::empty());
    assert(trees(out@) =~= trees(out@) + Seq::<Tree>::empty());
    out
}

/// Copies a sequence of tokens, each with all that is nested in it.
pub fn copy_tokens(tokens: &Vec<Token>) -> (copies: Vec<Token>)
    ensures
        trees(copies@) == trees(tokens@),
    decreases tokens,
{
    let mut copies: Vec<Token> = Vec::new();
    let mut i: usize = 0;
    while i < tokens.len()
        invariant
            i <= tokens.len(),
            copies.len() == i,
            forall|k: int| 0 <= k < i ==> copies[k]@ == tokens[k]@,
        decreases tokens.len() - i,
    {
        let copy = copy_token(&tokens[i]);
        copies.push(copy);
        i += 1;
    }
    assert(trees(copies@) =~= trees(tokens@));
    copies
}

/// Copies one token with all that is nested in it.
pub fn copy_token(token: &Token) -> (copy: Token)
    ensures
        copy@ == token@,
    decreases token,
{
    match token {
        Token::Name(text) => Token::Name(text.clone()),
        Token::Literal(text) => Token::Literal(text.clone()),
        Token::Punct(ch, spacing) => Token::Punct(*ch, *spacing),
        Token::Group(delimiter, children) => Token::Group(*delimiter, copy_tokens(children)),
    }
}

impl Clone for Token {
    fn clone(&self) -> (copy: Token)
        ensures
            copy@ == self@,
    {
        copy_token(self)
    }
}

} // verus!
