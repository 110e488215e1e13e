//! Splitting source text into tokens, which is the work of `proc_macro2`. Its
//! token stream is carried over tree by tree, each tree with its place in the
//! text, and each punctuation gets its spacing from the places.

use crate::parse::{SyntaxError, SyntaxErrorKind};
use crate::token::{holder, holder_of, trees, Delimiter, Spacing, Token, Tree};
use proc_macro2::TokenTree;
use std::str::FromStr;
use vstd::prelude::*;
use vstd::string::StrSliceExecFns;

verus! {

/// `proc_macro2::TokenStream`, carried through as a value that nothing is
/// known of but what [`stream_items`] names.
#[verifier::external_type_specification]
#[verifier::external_body]
pub struct ExTokenStream(proc_macro2::TokenStream);

/// `proc_macro2::TokenTree`, carried through as a value that nothing is known
/// of but what [`placed_of`] names.
#[verifier::external_type_specification]
#[verifier::external_body]
pub struct ExTokenTree(proc_macro2::TokenTree);

/// The mathematical value of a [`Sited`] tree: what the tree is, and where it
/// stands. It takes up the places from `start` up to, not including, `end`.
pub enum Placed {
    Name { start: usize, end: usize, text: Seq<char> },
    Literal { start: usize, end: usize, text: Seq<char> },
    Punct { start: usize, end: usize, ch: char },
    Group { start: usize, end: usize, delimiter: Delimiter, children: Seq<Placed> },
}

impl Placed {
    /// The place at which the tree starts.
    pub open spec fn start(self) -> usize {
        match self {
            Placed::Name { start, .. } => start,
            Placed::Literal { start, .. } => start,
            Placed::Punct { start, .. } => start,
            Placed::Group { start, .. } => start,
        }
    }

    /// The place behind the tree.
    pub open spec fn end(self) -> usize {
        match self {
            Placed::Name { end, .. } => end,
            Placed::Literal { end, .. } => end,
            Placed::Punct { end, .. } => end,
            Placed::Group { end, .. } => end,
        }
    }
}

/// A token tree together with its place, as a lexer or a macro host hands it
/// over. For a text the places are byte offsets; all that counts of them is
/// which are equal.
#[derive(Debug, PartialEq, Eq)]
pub enum Sited {
    Name { start: usize, end: usize, text: String },
    Literal { start: usize, end: usize, text: String },
    Punct { start: usize, end: usize, ch: char },
    Group { start: usize, end: usize, delimiter: Delimiter, children: Vec<Sited> },
}

/// The values of a sequence of sited trees, in order.
pub open spec fn placed(sited: Seq<Sited>) -> Seq<Placed>
    decreases sited,
{
    Seq::new(
        sited.len(),
        |i: int|
            if 0 <= i < sited.len() {
                sited[i].view()
            } else {
                arbitrary()
            },
    )
}

impl View for Sited {
    type V = Placed;

    open spec fn view(&self) -> Placed
        decreases self,
    {
        match self {
            Sited::Name { start, end, text } => Placed::Name {
                start: *start,
                end: *end,
                text: text@,
            },
            Sited::Literal { start, end, text } => Placed::Literal {
                start: *start,
                end: *end,
                text: text@,
            },
            Sited::Punct { start, end, ch } => Placed::Punct { start: *start, end: *end, ch: *ch },
            Sited::Group { start, end, delimiter, children } => Placed::Group {
                start: *start,
                end: *end,
                delimiter: *delimiter,
                children: placed(children@),
            },
        }
    }
}

impl Sited {
    /// The place at which the tree starts.
    pub fn starts_at(&self) -> (at: usize)
        ensures
            at == self@.start(),
    {
        match self {
            Sited::Name { start, .. } => *start,
            Sited::Literal { start, .. } => *start,
            Sited::Punct { start, .. } => *start,
            Sited::Group { start, .. } => *start,
        }
    }

    /// The place behind the tree.
    pub fn ends_at(&self) -> (at: usize)
        ensures
            at == self@.end(),
    {
        match self {
            Sited::Name { end, .. } => *end,
            Sited::Literal { end, .. } => *end,
            Sited::Punct { end, .. } => *end,
            Sited::Group { end, .. } => *end,
        }
    }
}

/// The tree at index `i` is joint with the one after it: there is a next tree
/// in the same sequence, and it starts where this one ends.
pub open spec fn joint_at(placed: Seq<Placed>, i: int) -> bool {
    0 <= i && i + 1 < placed.len() && placed[i].end() == placed[i + 1].start()
}

/// The token tree that a placed tree is read as. A punctuation is joint where
/// `joint` says so; the children of a group are read by their own places.
pub open spec fn read_tree(placed: Placed, joint: bool) -> Tree
    decreases placed,
{
    match placed {
        Placed::Name { text, .. } => Tree::Name(text),
        Placed::Literal { text, .. } => Tree::Literal(text),
        Placed::Punct { ch, .. } => Tree::Punct(
            ch,
            if joint {
                Spacing::Joint
            } else {
                Spacing::Alone
            },
        ),
        Placed::Group { delimiter, children, .. } => Tree::Group(delimiter, read(children)),
    }
}

/// The token trees that a sequence of placed trees is read as: each
/// punctuation is joint exactly where the next tree follows it with nothing
/// between them, whatever that tree is.
pub open spec fn read(placed: Seq<Placed>) -> Seq<Tree>
    decreases placed,
{
    Seq::new(
        placed.len(),
        |i: int|
            if 0 <= i < placed.len() {
                read_tree(placed[i], joint_at(placed, i))
            } else {
                arbitrary()
            },
    )
}

/// Reads sited trees as tokens: the places are dropped, and each punctuation
/// gets its spacing from them.
pub fn read_sited(sited: &Vec<Sited>) -> (tokens: Vec<Token>)
    ensures
        trees(tokens@) == read(placed(sited@)),
    decreases sited,
{
    let ghost model = placed(sited@);
    let mut tokens: Vec<Token> = Vec::new();
    let mut i: usize = 0;
    while i < sited.len()
        invariant
            i <= sited.len(),
            model == placed(sited@),
            tokens.len() == i,
            forall|k: int| 0 <= k < i ==> tokens[k]@ == read(model)[k],
        decreases sited.len() - i,
    {
        let joint = i + 1 < sited.len() && sited[i + 1].starts_at() == sited[i].ends_at();
        assert(joint == joint_at(model, i as int));
        let token = match &sited[i] {
            Sited::Name { text, .. } => Token::Name(text.clone()),
            Sited::Literal { text, .. } => Token::Literal(text.clone()),
            Sited::Punct { ch, .. } => Token::Punct(
                *ch,
                if joint {
                    Spacing::Joint
                } else {
                    Spacing::Alone
                },
            ),
            Sited::Group { delimiter, children, .. } => Token::Group(
                *delimiter,
                read_sited(children),
            ),
        };
        tokens.push(token);
        i += 1;
    }
    assert(trees(tokens@) =~= read(model));
    tokens
}

/// A text is short enough for the lexer, which counts its characters in 32
/// bits from 1.
pub open spec fn lexable(source: Seq<char>) -> bool {
    source.len() < 0xFFFF_FFFF
}

/// What `proc_macro2` makes of the text `source`: its trees with the byte
/// offsets at which they start and end, or, where the text cannot be split into
/// tokens, the byte offset at which that shows.
pub uninterp spec fn tokenized(source: Seq<char>) -> Result<Seq<Placed>, usize>;

/// The trees that a `proc_macro2::TokenStream` holds, in the order in which it
/// yields them.
pub uninterp spec fn stream_items(stream: proc_macro2::TokenStream) -> Seq<Placed>;

/// What a `proc_macro2::TokenTree` is: its kind, its text or character, the
/// byte range of its span, and for a group its delimiter and the trees of its
/// stream.
pub uninterp spec fn placed_of(tree: proc_macro2::TokenTree) -> Placed;

/// One tree of a stream, taken apart one level.
enum Piece {
    Name(String),
    Literal(String),
    Punct(char),
    Nested(Delimiter, proc_macro2::TokenStream),
}

impl Piece {
    /// The piece holds what `placed` is, places aside.
    spec fn shows(self, placed: Placed) -> bool {
        match self {
            Piece::Name(text) => placed is Name && placed->Name_text == text@,
            Piece::Literal(text) => placed is Literal && placed->Literal_text == text@,
            Piece::Punct(ch) => placed is Punct && placed->ch == ch,
            Piece::Nested(delimiter, stream) => placed is Group && placed->delimiter == delimiter
                && placed->children == stream_items(stream),
        }
    }
}

/// Calls `proc_macro2::extra::invalidate_current_thread_spans`, then
/// `proc_macro2::TokenStream::from_str` on `source`; for a text that cannot be
/// split, as with a bracket that is not closed, it gives the start of the byte
/// range of the error's span.
///
/// The lexer numbers the characters of all texts that a thread has split since
/// the last invalidation in 32 bits, from 1. With the invalidation first, the
/// numbers start anew, so that what comes out is determined by the text, and a
/// text of less than 2^32 - 1 characters is within the count. Every
/// `proc_macro2::Span` that the thread held before the call ends with it.
///
/// The contract is for `proc_macro2`'s own lexer, the only one that is compiled
/// without its `proc-macro` feature; with that feature the invalidation panics
/// inside a macro host.
#[verifier::external_body]
fn lex(source: &str) -> (stream: Result<proc_macro2::TokenStream, usize>)
    requires
        lexable(source@),
    ensures
        match stream {
            Ok(found) => tokenized(source@) == Ok::<Seq<Placed>, usize>(stream_items(found)),
            Err(at) => tokenized(source@) == Err::<Seq<Placed>, usize>(at),
        },
{
    proc_macro2::extra::invalidate_current_thread_spans();
    match proc_macro2::TokenStream::from_str(source) {
        Ok(stream) => Ok(stream),
        Err(error) => Err(error.span().byte_range().start),
    }
}

/// Calls `into_iter` on a `proc_macro2::TokenStream` and collects what it
/// yields: as many trees as the stream holds, each the tree at its place.
#[verifier::external_body]
fn items(stream: proc_macro2::TokenStream) -> (items: Vec<TokenTree>)
    ensures
        items@.len() == stream_items(stream).len(),
        forall|i: int|
            0 <= i < items@.len() ==> placed_of(#[trigger] items@[i]) == stream_items(stream)[i],
{
    stream.into_iter().collect()
}

/// Takes one `proc_macro2::TokenTree` apart by its variant: an identifier and
/// a literal give their text (`to_string`), a punctuation its character
/// (`as_char`), a group its delimiter (`delimiter`) and its stream (`stream`).
#[verifier::external_body]
fn piece(tree: &TokenTree) -> (piece: Piece)
    ensures
        piece.shows(placed_of(*tree)),
{
    match tree {
        TokenTree::Ident(ident) => Piece::Name(ident.to_string()),
        TokenTree::Literal(literal) => Piece::Literal(literal.to_string()),
        TokenTree::Punct(punct) => Piece::Punct(punct.as_char()),
        TokenTree::Group(group) => Piece::Nested(match group.delimiter() {
            proc_macro2::Delimiter::Parenthesis => Delimiter::Paren,
            proc_macro2::Delimiter::Bracket => Delimiter::Bracket,
            proc_macro2::Delimiter::Brace => Delimiter::Brace,
            proc_macro2::Delimiter::None => Delimiter::Invisible,
        }, group.stream()),
    }
}

/// Calls `span` on a `proc_macro2::TokenTree` and `byte_range` on the span:
/// the offsets in the text of the tree's first byte and behind its last. It is
/// called on the trees of a stream that [`lex`] has just made, before anything
/// else is split on the thread.
#[verifier::external_body]
fn place(tree: &TokenTree) -> (at: (usize, usize))
    ensures
        at.0 == placed_of(*tree).start(),
        at.1 == placed_of(*tree).end(),
{
    let range = tree.span().byte_range();
    (range.start, range.end)
}

/// Carries a stream over into sited trees, groups with all that is nested in
/// them.
fn lower(stream: proc_macro2::TokenStream) -> (sited: Vec<Sited>)
    ensures
        placed(sited@) == stream_items(stream),
    decreases stream_items(stream),
{
    let ghost model = stream_items(stream);
    let items = items(stream);
    let mut sited: Vec<Sited> = Vec::new();
    let mut i: usize = 0;
    while i < items.len()
        invariant
            i <= items.len(),
            model == stream_items(stream),
            items@.len() == model.len(),
            forall|k: int| 0 <= k < items@.len() ==> placed_of(#[trigger] items@[k]) == model[k],
            sited.len() == i,
            forall|k: int| 0 <= k < i ==> sited[k]@ == model[k],
        decreases items.len() - i,
    {
        let (start, end) = place(&items[i]);
        let tree = match piece(&items[i]) {
            Piece::Name(text) => Sited::Name { start, end, text },
            Piece::Literal(text) => Sited::Literal { start, end, text },
            Piece::Punct(ch) => Sited::Punct { start, end, ch },
            Piece::Nested(delimiter, inner) => {
                proof {
                    let group = model[i as int];
                    assert(decreases_to!(model => group));
                    assert(decreases_to!(group => group->children));
                }
                Sited::Group { start, end, delimiter, children: lower(inner) }
            },
        };
        sited.push(tree);
        i += 1;
    }
    assert(placed(sited@) =~= model);
    sited
}

/// The tokens of a text, with the place of each token of the top level.
#[derive(Debug, PartialEq, Eq)]
pub struct Lexed {
    /// The tokens.
    pub tokens: Vec<Token>,
    /// For each token of the top level, the byte offset at which it starts.
    pub starts: Vec<usize>,
    /// The byte offset behind the last token of the top level; 0 without one.
    pub end: usize,
}

/// The offset behind the last of `placed`, and 0 where there is none.
pub open spec fn end_of(placed: Seq<Placed>) -> usize {
    if placed.len() == 0 {
        0
    } else {
        placed.last().end()
    }
}

/// The offsets at which the trees of `placed` start.
pub open spec fn starts_of(placed: Seq<Placed>) -> Seq<usize> {
    Seq::new(placed.len(), |i: int| placed[i].start())
}

/// The place in a text of the token with index `index` among its tokens with
/// the invisible groups of the top level looked through: the start of the token
/// of the top level that it is or stands in, and `end` where there is no such
/// token. `starts` are the starts of the tokens of the top level.
pub open spec fn place_of(tokens: Seq<Tree>, starts: Seq<usize>, end: usize, index: int) -> usize {
    let top = holder_of(tokens, index);
    if 0 <= top < starts.len() {
        starts[top]
    } else {
        end
    }
}

impl Lexed {
    /// The tokens are `placed` as [`read`], and the places are those of
    /// `placed`.
    pub open spec fn shows(&self, placed: Seq<Placed>) -> bool {
        &&& trees(self.tokens@) == read(placed)
        &&& self.starts@ == starts_of(placed)
        &&& self.end == end_of(placed)
    }

    /// The place in the text of the token that a parser's position counts.
    pub fn place(&self, index: usize) -> (at: usize)
        ensures
            at == place_of(trees(self.tokens@), self.starts@, self.end, index as int),
    {
        let top = holder(&self.tokens, index);
        if top < self.starts.len() {
            self.starts[top]
        } else {
            self.end
        }
    }
}

/// What a text is split into: its placed trees; an error at its start where it
/// is too long for the lexer; an error at the offset where it shows that the
/// text cannot be split into tokens.
pub open spec fn lexed_text(source: Seq<char>) -> Result<Seq<Placed>, SyntaxError> {
    if !lexable(source) {
        Err(SyntaxError { kind: SyntaxErrorKind::TextTooLong, position: 0 })
    } else {
        match tokenized(source) {
            Ok(placed) => Ok(placed),
            Err(at) => Err(SyntaxError { kind: SyntaxErrorKind::Untokenizable, position: at }),
        }
    }
}

/// Splits `source` into tokens. Which trees a text has, and where, is for
/// [`tokenized`] to say; the spacing of each punctuation is read from the
/// places.
///
/// Every `proc_macro2::Span` that the thread held before the call ends with
/// it.
pub fn tokenize(source: &str) -> (result: Result<Lexed, SyntaxError>)
    ensures
        match lexed_text(source@) {
            Ok(placed) => result matches Ok(lexed) && lexed.shows(placed),
            Err(error) => result matches Err(found) && found == error,
        },
{
    if source.unicode_len() >= 0xFFFF_FFFF {
        return Err(SyntaxError { kind: SyntaxErrorKind::TextTooLong, position: 0 });
    }
    match lex(source) {
        Ok(stream) => {
            let sited = lower(stream);
            let tokens = read_sited(&sited);
            let mut starts: Vec<usize> = Vec::new();
            let mut end: usize = 0;
            let mut i: usize = 0;
            while i < sited.len()
                invariant
                    i <= sited.len(),
                    starts.len() == i,
                    forall|k: int| 0 <= k < i ==> starts[k] == placed(sited@)[k].start(),
                    end == end_of(placed(sited@).take(i as int)),
                decreases sited.len() - i,
            {
                starts.push(sited[i].starts_at());
                end = sited[i].ends_at();
                i += 1;
                assert(placed(sited@).take(i as int).last() == placed(sited@)[i - 1]);
            }
            assert(placed(sited@).take(i as int) =~= placed(sited@));
            assert(starts@ =~= starts_of(placed(sited@)));
            Ok(Lexed { tokens, starts, end })
        },
        Err(at) => Err(SyntaxError { kind: SyntaxErrorKind::Untokenizable, position: at }),
    }
}

} // verus!
