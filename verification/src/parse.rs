//! The parser of the range declaration: `name in start..end { body }`, or with
//! `..=` for a range that includes its end.

use crate::range::{range_of, RangeModel, RangeSpec};
use crate::token::{copy_tokens, open, opened, trees, Delimiter, Spacing, Token, Tree};
use vstd::prelude::*;
use vstd::string::{StrSliceExecFns, StringExecFns};

verus! {

/// What the parser missed at the place where it stopped.
#[derive(Clone, Copy, Debug, PartialEq, Eq, Structural)]
pub enum SyntaxErrorKind {
    /// The text has too many characters for the lexer to count.
    TextTooLong,
    /// The text could not be split into tokens; the position is the offset at
    /// which that shows.
    Untokenizable,
    /// The declaration does not start with a name.
    ExpectedName,
    /// The name is not followed by `in`.
    ExpectedIn,
    /// A bound is not an integer literal with a value in `i64`.
    ExpectedInteger,
    /// The lower bound is not followed by `..`.
    ExpectedRange,
    /// The range includes its end, and the end is the largest `i64`.
    BoundTooLarge,
    /// The upper bound is not followed by a group in braces.
    ExpectedBody,
    /// Something follows the body.
    UnexpectedToken,
}

/// A malformed range declaration, with the place at which parsing stopped.
///
/// For a declaration given as tokens, `position` is the index of the token,
/// among the tokens of the declaration with the invisible groups of its top
/// level looked through; it is the number of those tokens where the declaration
/// ended too early. For a declaration given as text, it is the byte offset in
/// the text at which the token starts.
#[derive(Clone, Copy, Debug, PartialEq, Eq, Structural)]
pub struct SyntaxError {
    pub kind: SyntaxErrorKind,
    pub position: usize,
}

/// The message that goes with each kind of error.
pub open spec fn message_text(kind: SyntaxErrorKind) -> Seq<char> {
    match kind {
        SyntaxErrorKind::TextTooLong => "the input is too long"@,
        SyntaxErrorKind::Untokenizable => "cannot parse the input into tokens"@,
        SyntaxErrorKind::ExpectedName => "expected identifier"@,
        SyntaxErrorKind::ExpectedIn => "expected `in`"@,
        SyntaxErrorKind::ExpectedInteger => "expected integer literal"@,
        SyntaxErrorKind::ExpectedRange => "expected `..`"@,
        SyntaxErrorKind::BoundTooLarge => "inclusive upper bound is too large"@,
        SyntaxErrorKind::ExpectedBody => "expected curly braces"@,
        SyntaxErrorKind::UnexpectedToken => "unexpected token"@,
    }
}

impl SyntaxError {
    /// The error's message, for a diagnostic at `position`.
    pub fn message(&self) -> (text: String)
        ensures
            text@ == message_text(self.kind),
    {
        String::from_str(
            match self.kind {
                SyntaxErrorKind::TextTooLong => "the input is too long",
                SyntaxErrorKind::Untokenizable => "cannot parse the input into tokens",
                SyntaxErrorKind::ExpectedName => "expected identifier",
                SyntaxErrorKind::ExpectedIn => "expected `in`",
                SyntaxErrorKind::ExpectedInteger => "expected integer literal",
                SyntaxErrorKind::ExpectedRange => "expected `..`",
                SyntaxErrorKind::BoundTooLarge => "inclusive upper bound is too large",
                SyntaxErrorKind::ExpectedBody => "expected curly braces",
                SyntaxErrorKind::UnexpectedToken => "unexpected token",
            },
        )
    }
}

/// The value that `syn` reads from `text` as an integer literal of type `i64`,
/// where it reads one.
pub uninterp spec fn integer_literal_value(text: Seq<char>) -> Option<i64>;

/// A text is short enough to be read as a literal. `syn` has the lexer number
/// the characters of the text, and then those of the literal with its sign once
/// more, in 32 bits from 1.
pub open spec fn readable(text: Seq<char>) -> bool {
    text.len() < 0x7FFF_FFFF
}

/// Calls `proc_macro2::extra::invalidate_current_thread_spans`, then
/// `syn::parse_str::<syn::LitInt>` on `text` and, where that gives a literal,
/// `syn::LitInt::base10_parse::<i64>` on it. There is no value where `text` is
/// not one integer literal, or where its digits do not fit in an `i64`.
///
/// `syn` splits the text with `proc_macro2`, whose lexer numbers the characters
/// of all texts that a thread has split since the last invalidation in 32 bits.
/// With the invalidation first the numbers start anew, so that the call returns
/// for every readable text, with a value that the text determines. Every
/// `proc_macro2::Span` that the thread held before the call ends with it. The
/// contract is for `proc_macro2`'s own lexer, the only one that is compiled
/// without its `proc-macro` feature.
#[verifier::external_body]
fn integer_literal(text: &str) -> (value: Option<i64>)
    requires
        readable(text@),
    ensures
        value == integer_literal_value(text@),
{
    proc_macro2::extra::invalidate_current_thread_spans();
    match syn::parse_str::<syn::LitInt>(text) {
        Ok(literal) => literal.base10_parse::<i64>().ok(),
        Err(_) => None,
    }
}

/// What the text of a bound reads as: the value of the integer literal that it
/// is, and nothing where it is none, where the value is not an `i64`, or where
/// the text is too long to be read.
pub open spec fn literal_read(text: Seq<char>) -> Option<i64> {
    if readable(text) {
        integer_literal_value(text)
    } else {
        None
    }
}

/// Reads the text of a bound.
///
/// Every `proc_macro2::Span` that the thread held before the call ends with
/// it.
pub fn read_literal(text: &str) -> (value: Option<i64>)
    ensures
        value == literal_read(text@),
{
    if text.unicode_len() < 0x7FFF_FFFF {
        integer_literal(text)
    } else {
        None
    }
}

/// The error of kind `kind` at token `at`.
pub open spec fn error_at(kind: SyntaxErrorKind, at: int) -> SyntaxError {
    SyntaxError { kind, position: at as usize }
}

/// The text of the bound that starts at token `at`, and the index of the token
/// after it. A bound is a literal, or `-` and a literal, which is read with the
/// sign in front of its text.
pub open spec fn bound_text_at(tokens: Seq<Tree>, at: int) -> Option<(Seq<char>, int)> {
    if 0 <= at < tokens.len() && tokens[at] is Literal {
        Some((tokens[at]->Literal_0, at + 1))
    } else if 0 <= at && at + 1 < tokens.len() && tokens[at] is Punct && tokens[at]->Punct_0 == '-'
        && tokens[at + 1] is Literal {
        Some((seq!['-'] + tokens[at + 1]->Literal_0, at + 2))
    } else {
        None
    }
}

/// The index of the token behind the bound that starts at token `at`.
pub open spec fn bound_end(tokens: Seq<Tree>, at: int) -> int {
    match bound_text_at(tokens, at) {
        Some((_, next)) => next,
        None => at,
    }
}

/// The two tokens at `at` are `..`: a `.` joint with a second `.`.
pub open spec fn dots_at(tokens: Seq<Tree>, at: int) -> bool {
    &&& 0 <= at
    &&& at + 1 < tokens.len()
    &&& tokens[at] == Tree::Punct('.', Spacing::Joint)
    &&& tokens[at + 1] is Punct
    &&& tokens[at + 1]->Punct_0 == '.'
}

/// The token at `at` is the punctuation character `ch`.
pub open spec fn punct_at(tokens: Seq<Tree>, at: int, ch: char) -> bool {
    0 <= at < tokens.len() && tokens[at] is Punct && tokens[at]->Punct_0 == ch
}

/// The token at `at` is a group in braces.
pub open spec fn braces_at(tokens: Seq<Tree>, at: int) -> bool {
    0 <= at < tokens.len() && tokens[at] is Group && tokens[at]->Group_0 == Delimiter::Brace
}

/// The index at which the upper bound starts: behind the lower bound, `..`
/// and, where the range includes its end, `=`. There is none where the tokens
/// do not hold a lower bound and `..` in their places.
pub open spec fn upper_at(tokens: Seq<Tree>) -> Option<int> {
    match bound_text_at(tokens, 2) {
        Some((_, dots)) => if dots_at(tokens, dots) {
            Some(
                if punct_at(tokens, dots + 2, '=') {
                    dots + 3
                } else {
                    dots + 2
                },
            )
        } else {
            None
        },
        None => None,
    }
}

/// What the lower bound of a declaration reads as.
pub open spec fn lower_read(tokens: Seq<Tree>) -> Option<i64> {
    match bound_text_at(tokens, 2) {
        Some((text, _)) => literal_read(text),
        None => None,
    }
}

/// What the upper bound of a declaration reads as.
pub open spec fn upper_read(tokens: Seq<Tree>) -> Option<i64> {
    match upper_at(tokens) {
        Some(at) => match bound_text_at(tokens, at) {
            Some((text, _)) => literal_read(text),
            None => None,
        },
        None => None,
    }
}

/// What a declaration parses to where its bounds read as `lower` and `upper`.
/// The tokens are read in order: a name, the name `in`, a bound, `..`, `=` if
/// the range includes its end, a bound, a group in braces, and nothing after
/// it. The first token that does not fit gives the error; a bound fits where it
/// has the form of one and reads as a value. The body is the contents of the
/// braces, unchanged.
pub open spec fn parsed_with(tokens: Seq<Tree>, lower: Option<i64>, upper: Option<i64>) -> Result<
    (RangeModel, Seq<Tree>),
    SyntaxError,
> {
    if !(tokens.len() > 0 && tokens[0] is Name) {
        Err(error_at(SyntaxErrorKind::ExpectedName, 0))
    } else if !(tokens.len() > 1 && tokens[1] == Tree::Name("in"@)) {
        Err(error_at(SyntaxErrorKind::ExpectedIn, 1))
    } else if bound_text_at(tokens, 2) is None || lower is None {
        Err(error_at(SyntaxErrorKind::ExpectedInteger, 2))
    } else {
        let start = lower->0;
        let dots = bound_end(tokens, 2);
        if !dots_at(tokens, dots) {
            Err(error_at(SyntaxErrorKind::ExpectedRange, dots))
        } else {
            let inclusive = punct_at(tokens, dots + 2, '=');
            let at = if inclusive {
                dots + 3
            } else {
                dots + 2
            };
            if bound_text_at(tokens, at) is None || upper is None {
                Err(error_at(SyntaxErrorKind::ExpectedInteger, at))
            } else {
                let end = upper->0;
                let brace = bound_end(tokens, at);
                if inclusive && end == i64::MAX {
                    Err(error_at(SyntaxErrorKind::BoundTooLarge, at))
                } else if !braces_at(tokens, brace) {
                    Err(error_at(SyntaxErrorKind::ExpectedBody, brace))
                } else if brace + 1 < tokens.len() {
                    Err(error_at(SyntaxErrorKind::UnexpectedToken, brace + 1))
                } else {
                    Ok(
                        (
                            range_of(tokens[0]->Name_0, start as int, end as int, inclusive),
                            tokens[brace]->Group_1,
                        ),
                    )
                }
            }
        }
    }
}

/// What a declaration parses to once the invisible groups of its top level
/// are looked through: what [`parsed_with`] makes of it with its bounds as they
/// read.
pub open spec fn parsed_open(tokens: Seq<Tree>) -> Result<(RangeModel, Seq<Tree>), SyntaxError> {
    parsed_with(tokens, lower_read(tokens), upper_read(tokens))
}

/// What a declaration parses to: what [`parsed_open`] makes of it with the
/// invisible groups of its top level looked through. An error's position is an
/// index among the tokens that are then left.
pub open spec fn parsed(tokens: Seq<Tree>) -> Result<(RangeModel, Seq<Tree>), SyntaxError> {
    parsed_open(opened(tokens))
}

/// The text of the bound that starts at token `at`, and the index of the token
/// after it.
pub fn bound_text(tokens: &Vec<Token>, at: usize) -> (bound: Option<(String, usize)>)
    ensures
        match bound {
            Some((text, next)) => bound_text_at(trees(tokens@), at as int) == Some(
                (text@, next as int),
            ),
            None => bound_text_at(trees(tokens@), at as int) is None,
        },
{
    if at >= tokens.len() {
        return None;
    }
    match &tokens[at] {
        Token::Literal(text) => Some((text.clone(), at + 1)),
        Token::Punct(ch, _) => {
            if *ch != '-' || tokens.len() - at < 2 {
                return None;
            }
            match &tokens[at + 1] {
                Token::Literal(text) => {
                    proof {
                        reveal_strlit("-");
                        assert("-"@ =~= seq!['-']);
                    }
                    let mut signed = String::from_str("-");
                    signed.append(text.as_str());
                    Some((signed, at + 2))
                },
                _ => None,
            }
        },
        _ => None,
    }
}

/// Whether the two tokens at `at` are `..`.
fn dotted(tokens: &Vec<Token>, at: usize) -> (yes: bool)
    ensures
        yes == dots_at(trees(tokens@), at as int),
{
    at < tokens.len() && tokens.len() - at >= 2 && tokens[at].is_joint_punct('.') && tokens[at
        + 1].is_punct('.')
}

/// Whether the range that starts with `..` at `dots` includes its end.
fn includes_end(tokens: &Vec<Token>, dots: usize) -> (yes: bool)
    requires
        dots_at(trees(tokens@), dots as int),
    ensures
        yes == punct_at(trees(tokens@), dots + 2, '='),
{
    tokens.len() - dots > 2 && tokens[dots + 2].is_punct('=')
}

/// Parses a declaration whose bounds have been read: `lower` and `upper` are
/// what the lower and the upper bound read as. The invisible groups of the top
/// level are taken as looked through already.
pub fn parse_with_bounds(tokens: &Vec<Token>, lower: Option<i64>, upper: Option<i64>) -> (result:
    Result<(RangeSpec, Vec<Token>), SyntaxError>)
    ensures
        match parsed_with(trees(tokens@), lower, upper) {
            Ok((range, body)) => result matches Ok((r, b)) && r@ == range && r.wf() && trees(b@)
                == body,
            Err(error) => result == Err::<(RangeSpec, Vec<Token>), SyntaxError>(error),
        },
{
    let n = tokens.len();
    let variable = if n > 0 {
        match &tokens[0] {
            Token::Name(text) => Some(text.clone()),
            _ => None,
        }
    } else {
        None
    };
    let variable = match variable {
        Some(text) => text,
        None => {
            return Err(SyntaxError { kind: SyntaxErrorKind::ExpectedName, position: 0 });
        },
    };
    if !(n > 1 && tokens[1].is_name(&String::from_str("in"))) {
        return Err(SyntaxError { kind: SyntaxErrorKind::ExpectedIn, position: 1 });
    }
    let (start, dots) = match (bound_text(tokens, 2), lower) {
        (Some((_, dots)), Some(start)) => (start, dots),
        _ => {
            return Err(SyntaxError { kind: SyntaxErrorKind::ExpectedInteger, position: 2 });
        },
    };
    if !dotted(tokens, dots) {
        return Err(SyntaxError { kind: SyntaxErrorKind::ExpectedRange, position: dots });
    }
    let inclusive = includes_end(tokens, dots);
    let at = if inclusive {
        dots + 3
    } else {
        dots + 2
    };
    let (end, brace) = match (bound_text(tokens, at), upper) {
        (Some((_, brace)), Some(end)) => (end, brace),
        _ => {
            return Err(SyntaxError { kind: SyntaxErrorKind::ExpectedInteger, position: at });
        },
    };
    let range = match RangeSpec::from_bounds(variable, start, end, inclusive) {
        Some(range) => range,
        None => {
            return Err(SyntaxError { kind: SyntaxErrorKind::BoundTooLarge, position: at });
        },
    };
    let body = if brace < n {
        match &tokens[brace] {
            Token::Group(Delimiter::Brace, contents) => Some(copy_tokens(contents)),
            _ => None,
        }
    } else {
        None
    };
    let body = match body {
        Some(contents) => contents,
        None => {
            return Err(SyntaxError { kind: SyntaxErrorKind::ExpectedBody, position: brace });
        },
    };
    if brace + 1 < n {
        return Err(SyntaxError { kind: SyntaxErrorKind::UnexpectedToken, position: brace + 1 });
    }
    Ok((range, body))
}

/// Parses a range declaration into its range and its body: looks through the
/// invisible groups of the top level, reads the two bounds where they stand,
/// and goes on as [`parse_with_bounds`] does.
///
/// On the text of the bounds the parser goes by [`integer_literal_value`];
/// everything else about the result is stated by [`parsed_with`]. Every
/// `proc_macro2::Span` that the thread held before the call ends with it.
pub fn parse(input: &Vec<Token>) -> (result: Result<(RangeSpec, Vec<Token>), SyntaxError>)
    ensures
        match parsed(trees(input@)) {
            Ok((range, body)) => result matches Ok((r, b)) && r@ == range && r.wf() && trees(b@)
                == body,
            Err(error) => result == Err::<(RangeSpec, Vec<Token>), SyntaxError>(error),
        },
{
    let tokens = open(input);
    let (lower, upper) = match bound_text(&tokens, 2) {
        Some((text, dots)) => {
            let lower = read_literal(text.as_str());
            let upper = if dotted(&tokens, dots) {
                let at = if includes_end(&tokens, dots) {
                    dots + 3
                } else {
                    dots + 2
                };
                match bound_text(&tokens, at) {
                    Some((text, _)) => read_literal(text.as_str()),
                    None => None,
                }
            } else {
                None
            };
            (lower, upper)
        },
        None => (None, None),
    };
    parse_with_bounds(&tokens, lower, upper)
}

} // verus!
