//! Ranged expansion of token trees: a body of tokens is stamped out once for
//! every value of a numeric range, with the loop variable replaced by the value.
//!
//! A declaration reads `name in start..end { body }`. [`parse::parse`] splits it
//! into its range and its body, [`engine::expand_all`] expands the body over the
//! range, and [`seq`] and [`expand`] do both, from tokens and from text.
//!
//! Beside the expansion stand two small rules that the sibling generators
//! decide by: [`order::first_misplaced`], for a list of names that has to be
//! sorted, and [`width::width_type`], for the integer type of a bit field.

pub mod decimal;
pub mod engine;
pub mod laws;
pub mod lex;
pub mod order;
pub mod parse;
pub mod range;
pub mod substitute;
pub mod token;
pub mod width;

use crate::engine::{expand_all, expansion};
use crate::lex::{end_of, lexed_text, place_of, read, starts_of, tokenize};
use crate::parse::{parse, parsed, SyntaxError};
use crate::token::{trees, Token, Tree};
use vstd::prelude::*;

verus! {

/// What a declaration expands to: the expansion of its body over its range
/// where it parses, and the parser's error where it does not.
pub open spec fn expanded(declaration: Seq<Tree>) -> Result<Seq<Tree>, SyntaxError> {
    match parsed(declaration) {
        Ok((range, body)) => Ok(expansion(body, range)),
        Err(error) => Err(error),
    }
}

/// What the text of a declaration expands to. Text that is too long or cannot
/// be split into tokens is the lexer's error. Other text expands as its tokens
/// do, and an error is at the place in the text of the token at which parsing
/// stopped.
pub open spec fn expanded_text(source: Seq<char>) -> Result<Seq<Tree>, SyntaxError> {
    match lexed_text(source) {
        Ok(placed) => match expanded(read(placed)) {
            Ok(tokens) => Ok(tokens),
            Err(error) => Err(
                SyntaxError {
                    kind: error.kind,
                    position: place_of(
                        read(placed),
                        starts_of(placed),
                        end_of(placed),
                        error.position as int,
                    ),
                },
            ),
        },
        Err(error) => Err(error),
    }
}

/// Parses the declaration `input` and expands its body over its range. A
/// malformed declaration gives the parser's error and no tokens.
///
/// Every `proc_macro2::Span` that the thread held before the call ends with
/// it.
pub fn seq(input: &Vec<Token>) -> (result: Result<Vec<Token>, SyntaxError>)
    ensures
        match expanded(trees(input@)) {
            Ok(tokens) => result matches Ok(out) && trees(out@) == tokens,
            Err(error) => result == Err::<Vec<Token>, SyntaxError>(error),
        },
{
    match parse(input) {
        Ok((range, body)) => Ok(expand_all(&range, &body)),
        Err(error) => Err(error),
    }
}

/// Expands the declaration written in `source`: splits the text into tokens,
/// then does as [`seq`] does. An error is at the byte offset in the text of the
/// token at which parsing stopped, and behind the last token where the text
/// ended too early.
///
/// Every `proc_macro2::Span` that the thread held before the call ends with
/// it.
pub fn expand(source: &str) -> (result: Result<Vec<Token>, SyntaxError>)
    ensures
        match expanded_text(source@) {
            Ok(tokens) => result matches Ok(out) && trees(out@) == tokens,
            Err(error) => result == Err::<Vec<Token>, SyntaxError>(error),
        },
{
    match tokenize(source) {
        Ok(lexed) => match seq(&lexed.tokens) {
            Ok(out) => Ok(out),
            Err(error) => Err(
                SyntaxError { kind: error.kind, position: lexed.place(error.position) },
            ),
        },
        Err(error) => Err(error),
    }
}

} // verus!
