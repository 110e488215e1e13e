use seq_expand::parse::{
    bound_text, parse, parse_with_bounds, read_literal, SyntaxError, SyntaxErrorKind,
};
use seq_expand::range::RangeSpec;
use seq_expand::token::{Delimiter, Spacing, Token};

fn name(text: &str) -> Token {
    Token::Name(text.to_string())
}

fn literal(text: &str) -> Token {
    Token::Literal(text.to_string())
}

fn punct(ch: char) -> Token {
    Token::Punct(ch, Spacing::Alone)
}

fn joint(ch: char) -> Token {
    Token::Punct(ch, Spacing::Joint)
}

fn braces(children: Vec<Token>) -> Token {
    Token::Group(Delimiter::Brace, children)
}

fn error(kind: SyntaxErrorKind, position: usize) -> SyntaxError {
    SyntaxError { kind, position }
}

/// `N in <start> .. <end> { <body> }`
fn declaration(start: &str, end: &str, body: Vec<Token>) -> Vec<Token> {
    vec![name("N"), name("in"), literal(start), joint('.'), punct('.'), literal(end), braces(body)]
}

fn range_of(tokens: &Vec<Token>) -> (i64, i64, bool) {
    let (range, _) = parse(tokens).unwrap();
    (range.lower, range.upper, range.inclusive_adjusted)
}

#[test]
fn exclusive_range_and_body() {
    let body = vec![name("B"), punct('~'), name("N"), Token::Group(Delimiter::Paren, vec![name("N")])];
    let (range, parsed_body) = parse(&declaration("0", "4", body.clone())).unwrap();
    assert_eq!(
        range,
        RangeSpec { variable: "N".to_string(), lower: 0, upper: 4, inclusive_adjusted: false }
    );
    // The body is what stands between the braces, not expanded.
    assert_eq!(parsed_body, body);
}

#[test]
fn inclusive_range_ends_one_past_its_end() {
    let tokens = vec![
        name("i"),
        name("in"),
        literal("1"),
        joint('.'),
        joint('.'),
        punct('='),
        literal("3"),
        braces(vec![]),
    ];
    let (range, body) = parse(&tokens).unwrap();
    assert_eq!(
        range,
        RangeSpec { variable: "i".to_string(), lower: 1, upper: 4, inclusive_adjusted: true }
    );
    assert_eq!(body, vec![]);
}

#[test]
fn backwards_range_is_empty_at_its_start() {
    assert_eq!(range_of(&declaration("5", "2", vec![])), (5, 5, false));
    let tokens = vec![
        name("N"),
        name("in"),
        literal("5"),
        joint('.'),
        joint('.'),
        punct('='),
        literal("3"),
        braces(vec![]),
    ];
    assert_eq!(range_of(&tokens), (5, 5, true));
}

#[test]
fn inclusive_range_can_be_empty() {
    let tokens = vec![
        name("N"),
        name("in"),
        literal("5"),
        joint('.'),
        joint('.'),
        punct('='),
        literal("4"),
        braces(vec![]),
    ];
    assert_eq!(range_of(&tokens), (5, 5, true));
}

#[test]
fn bounds_in_other_bases_with_separators_and_suffixes() {
    assert_eq!(range_of(&declaration("0x10", "0b101", vec![])), (16, 16, false));
    assert_eq!(range_of(&declaration("0o17", "1_000", vec![])), (15, 1000, false));
    assert_eq!(range_of(&declaration("2u8", "16usize", vec![])), (2, 16, false));
}

#[test]
fn negative_bounds() {
    let tokens = vec![
        name("N"),
        name("in"),
        punct('-'),
        literal("2"),
        joint('.'),
        punct('.'),
        punct('-'),
        literal("1"),
        braces(vec![]),
    ];
    assert_eq!(range_of(&tokens), (-2, -1, false));
    // A literal that carries its sign is read as well.
    assert_eq!(range_of(&declaration("-3", "3", vec![])), (-3, 3, false));
}

#[test]
fn bounds_at_the_ends_of_i64() {
    assert_eq!(
        range_of(&declaration("-9223372036854775808", "9223372036854775807", vec![])),
        (i64::MIN, i64::MAX, false)
    );
}

#[test]
fn empty_input_lacks_a_name() {
    assert_eq!(parse(&vec![]), Err(error(SyntaxErrorKind::ExpectedName, 0)));
}

#[test]
fn first_token_must_be_a_name() {
    let mut tokens = declaration("0", "4", vec![]);
    tokens[0] = literal("1");
    assert_eq!(parse(&tokens), Err(error(SyntaxErrorKind::ExpectedName, 0)));
    tokens[0] = punct('#');
    assert_eq!(parse(&tokens), Err(error(SyntaxErrorKind::ExpectedName, 0)));
    tokens[0] = braces(vec![]);
    assert_eq!(parse(&tokens), Err(error(SyntaxErrorKind::ExpectedName, 0)));
}

#[test]
fn second_token_must_be_in() {
    assert_eq!(parse(&vec![name("N")]), Err(error(SyntaxErrorKind::ExpectedIn, 1)));
    let mut tokens = declaration("0", "4", vec![]);
    tokens[1] = name("of");
    assert_eq!(parse(&tokens), Err(error(SyntaxErrorKind::ExpectedIn, 1)));
    tokens[1] = literal("in");
    assert_eq!(parse(&tokens), Err(error(SyntaxErrorKind::ExpectedIn, 1)));
}

#[test]
fn lower_bound_must_be_an_integer() {
    assert_eq!(parse(&vec![name("N"), name("in")]), Err(error(SyntaxErrorKind::ExpectedInteger, 2)));
    for bad in ["1.5", "\"1\"", "'1'", "1e3", "true"] {
        assert_eq!(
            parse(&declaration(bad, "4", vec![])),
            Err(error(SyntaxErrorKind::ExpectedInteger, 2))
        );
    }
    let mut tokens = declaration("0", "4", vec![]);
    tokens[2] = name("zero");
    assert_eq!(parse(&tokens), Err(error(SyntaxErrorKind::ExpectedInteger, 2)));
}

#[test]
fn bound_must_fit_in_i64() {
    assert_eq!(
        parse(&declaration("9223372036854775808", "4", vec![])),
        Err(error(SyntaxErrorKind::ExpectedInteger, 2))
    );
    assert_eq!(
        parse(&declaration("0", "0xffff_ffff_ffff_ffff", vec![])),
        Err(error(SyntaxErrorKind::ExpectedInteger, 5))
    );
}

#[test]
fn lone_minus_is_no_bound() {
    let tokens = vec![name("N"), name("in"), punct('-')];
    assert_eq!(parse(&tokens), Err(error(SyntaxErrorKind::ExpectedInteger, 2)));
    let tokens = vec![name("N"), name("in"), punct('-'), name("x")];
    assert_eq!(parse(&tokens), Err(error(SyntaxErrorKind::ExpectedInteger, 2)));
    let tokens = vec![name("N"), name("in"), punct('+'), literal("1")];
    assert_eq!(parse(&tokens), Err(error(SyntaxErrorKind::ExpectedInteger, 2)));
}

#[test]
fn range_needs_two_joint_dots() {
    let tokens = vec![name("N"), name("in"), literal("0")];
    assert_eq!(parse(&tokens), Err(error(SyntaxErrorKind::ExpectedRange, 3)));
    let tokens = vec![name("N"), name("in"), literal("0"), joint('.')];
    assert_eq!(parse(&tokens), Err(error(SyntaxErrorKind::ExpectedRange, 3)));
    let tokens = vec![name("N"), name("in"), literal("0"), literal("4"), braces(vec![])];
    assert_eq!(parse(&tokens), Err(error(SyntaxErrorKind::ExpectedRange, 3)));
    // Two dots with space between them are not `..`.
    let tokens =
        vec![name("N"), name("in"), literal("0"), punct('.'), punct('.'), literal("4"), braces(vec![])];
    assert_eq!(parse(&tokens), Err(error(SyntaxErrorKind::ExpectedRange, 3)));
    let tokens =
        vec![name("N"), name("in"), literal("0"), joint('.'), punct(','), literal("4"), braces(vec![])];
    assert_eq!(parse(&tokens), Err(error(SyntaxErrorKind::ExpectedRange, 3)));
}

#[test]
fn range_behind_a_negative_bound_is_found_one_token_later() {
    let tokens = vec![name("N"), name("in"), punct('-'), literal("1"), braces(vec![])];
    assert_eq!(parse(&tokens), Err(error(SyntaxErrorKind::ExpectedRange, 4)));
}

#[test]
fn upper_bound_must_be_an_integer() {
    let tokens = vec![name("N"), name("in"), literal("0"), joint('.'), punct('.')];
    assert_eq!(parse(&tokens), Err(error(SyntaxErrorKind::ExpectedInteger, 5)));
    assert_eq!(
        parse(&declaration("0", "4.0", vec![])),
        Err(error(SyntaxErrorKind::ExpectedInteger, 5))
    );
    let tokens = vec![
        name("N"),
        name("in"),
        literal("0"),
        joint('.'),
        joint('.'),
        punct('='),
        name("n"),
        braces(vec![]),
    ];
    assert_eq!(parse(&tokens), Err(error(SyntaxErrorKind::ExpectedInteger, 6)));
    // Three dots: the third is where the bound should stand.
    let tokens = vec![
        name("N"),
        name("in"),
        literal("0"),
        joint('.'),
        joint('.'),
        punct('.'),
        literal("4"),
        braces(vec![]),
    ];
    assert_eq!(parse(&tokens), Err(error(SyntaxErrorKind::ExpectedInteger, 5)));
}

#[test]
fn inclusive_end_at_the_largest_i64_is_refused() {
    let tokens = vec![
        name("N"),
        name("in"),
        literal("0"),
        joint('.'),
        joint('.'),
        punct('='),
        literal("9223372036854775807"),
        braces(vec![]),
    ];
    assert_eq!(parse(&tokens), Err(error(SyntaxErrorKind::BoundTooLarge, 6)));
    // It is refused before the body is looked for.
    let tokens = vec![
        name("N"),
        name("in"),
        literal("0"),
        joint('.'),
        joint('.'),
        punct('='),
        literal("9223372036854775807"),
    ];
    assert_eq!(parse(&tokens), Err(error(SyntaxErrorKind::BoundTooLarge, 6)));
}

#[test]
fn body_must_be_in_braces() {
    let tokens = vec![name("N"), name("in"), literal("0"), joint('.'), punct('.'), literal("4")];
    assert_eq!(parse(&tokens), Err(error(SyntaxErrorKind::ExpectedBody, 6)));
    for delimiter in [Delimiter::Paren, Delimiter::Bracket, Delimiter::Invisible] {
        let mut tokens = declaration("0", "4", vec![]);
        tokens[6] = Token::Group(delimiter, vec![]);
        assert_eq!(parse(&tokens), Err(error(SyntaxErrorKind::ExpectedBody, 6)));
    }
    let mut tokens = declaration("0", "4", vec![]);
    tokens[6] = name("body");
    assert_eq!(parse(&tokens), Err(error(SyntaxErrorKind::ExpectedBody, 6)));
}

#[test]
fn nothing_may_follow_the_body() {
    let mut tokens = declaration("0", "4", vec![]);
    tokens.push(punct(';'));
    assert_eq!(parse(&tokens), Err(error(SyntaxErrorKind::UnexpectedToken, 7)));
    tokens.push(name("more"));
    assert_eq!(parse(&tokens), Err(error(SyntaxErrorKind::UnexpectedToken, 7)));
}

#[test]
fn messages_of_all_kinds() {
    let message = |kind| error(kind, 0).message();
    assert_eq!(message(SyntaxErrorKind::TextTooLong), "the input is too long");
    assert_eq!(message(SyntaxErrorKind::Untokenizable), "cannot parse the input into tokens");
    assert_eq!(message(SyntaxErrorKind::ExpectedName), "expected identifier");
    assert_eq!(message(SyntaxErrorKind::ExpectedIn), "expected `in`");
    assert_eq!(message(SyntaxErrorKind::ExpectedInteger), "expected integer literal");
    assert_eq!(message(SyntaxErrorKind::ExpectedRange), "expected `..`");
    assert_eq!(message(SyntaxErrorKind::BoundTooLarge), "inclusive upper bound is too large");
    assert_eq!(message(SyntaxErrorKind::ExpectedBody), "expected curly braces");
    assert_eq!(message(SyntaxErrorKind::UnexpectedToken), "unexpected token");
}

#[test]
fn range_from_bounds() {
    let made = RangeSpec::from_bounds("N".to_string(), 2, 9, false).unwrap();
    assert_eq!((made.lower, made.upper, made.inclusive_adjusted), (2, 9, false));
    assert_eq!(made.variable, "N");
    let made = RangeSpec::from_bounds("N".to_string(), 2, 9, true).unwrap();
    assert_eq!((made.lower, made.upper, made.inclusive_adjusted), (2, 10, true));
    let made = RangeSpec::from_bounds("N".to_string(), 9, 2, true).unwrap();
    assert_eq!((made.lower, made.upper, made.inclusive_adjusted), (9, 9, true));
    let made = RangeSpec::from_bounds("N".to_string(), 0, i64::MAX, false).unwrap();
    assert_eq!((made.lower, made.upper), (0, i64::MAX));
    let made = RangeSpec::from_bounds("N".to_string(), 0, i64::MAX - 1, true).unwrap();
    assert_eq!((made.lower, made.upper), (0, i64::MAX));
    assert_eq!(RangeSpec::from_bounds("N".to_string(), 0, i64::MAX, true), None);
    assert_eq!(RangeSpec::from_bounds("N".to_string(), i64::MAX, i64::MAX, true), None);
}

#[test]
fn invisible_groups_of_the_top_level_are_looked_through() {
    let invisible = |children| Token::Group(Delimiter::Invisible, children);
    // A bound and the range come wrapped, as from a fragment of another macro.
    let tokens = vec![
        name("N"),
        name("in"),
        invisible(vec![literal("2")]),
        invisible(vec![joint('.'), punct('.'), invisible(vec![literal("5")])]),
        braces(vec![invisible(vec![name("N")])]),
    ];
    let (range, body) = parse(&tokens).unwrap();
    assert_eq!((range.lower, range.upper), (2, 5));
    // What stands in the braces stays as it is.
    assert_eq!(body, vec![invisible(vec![name("N")])]);
    let tokens = vec![invisible(declaration("0", "4", vec![name("N")]))];
    assert_eq!(range_of(&tokens), (0, 4, false));
}

#[test]
fn positions_count_the_tokens_that_are_left() {
    let invisible = |children| Token::Group(Delimiter::Invisible, children);
    let tokens = vec![invisible(vec![name("N"), name("in")]), invisible(vec![]), name("x")];
    assert_eq!(parse(&tokens), Err(error(SyntaxErrorKind::ExpectedInteger, 2)));
    let tokens = vec![invisible(vec![name("N"), name("in"), literal("0")])];
    assert_eq!(parse(&tokens), Err(error(SyntaxErrorKind::ExpectedRange, 3)));
    let mut tokens = declaration("0", "4", vec![]);
    tokens.push(invisible(vec![]));
    assert!(parse(&tokens).is_ok());
    tokens.push(invisible(vec![invisible(vec![punct(';')])]));
    assert_eq!(parse(&tokens), Err(error(SyntaxErrorKind::UnexpectedToken, 7)));
}

#[test]
fn literals_as_they_read() {
    assert_eq!(read_literal("0"), Some(0));
    assert_eq!(read_literal("42"), Some(42));
    assert_eq!(read_literal("-42"), Some(-42));
    assert_eq!(read_literal("0x2a"), Some(42));
    assert_eq!(read_literal("0o52u8"), Some(42));
    assert_eq!(read_literal("4_2"), Some(42));
    assert_eq!(read_literal("9223372036854775807"), Some(i64::MAX));
    assert_eq!(read_literal("-9223372036854775808"), Some(i64::MIN));
    for bad in ["", "x", "4.2", "4e2", "\"42\"", "4 2", "--4", "9223372036854775808", "0x"] {
        assert_eq!(read_literal(bad), None);
    }
    // The same text reads the same, whatever was read before.
    assert_eq!(read_literal("0x2a"), Some(42));
}

#[test]
fn text_of_a_bound() {
    let tokens = vec![literal("7"), punct('-'), literal("0x8"), punct('-'), name("x"), punct('-')];
    assert_eq!(bound_text(&tokens, 0), Some(("7".to_string(), 1)));
    assert_eq!(bound_text(&tokens, 1), Some(("-0x8".to_string(), 3)));
    assert_eq!(bound_text(&tokens, 2), Some(("0x8".to_string(), 3)));
    assert_eq!(bound_text(&tokens, 3), None);
    assert_eq!(bound_text(&tokens, 4), None);
    assert_eq!(bound_text(&tokens, 5), None);
    assert_eq!(bound_text(&tokens, 6), None);
}

#[test]
fn grammar_with_bounds_as_read() {
    let body = vec![name("N")];
    let tokens = declaration("a", "b", body.clone());
    // The values are as given, whatever the literals say.
    let (range, parsed_body) = parse_with_bounds(&tokens, Some(2), Some(5)).unwrap();
    assert_eq!((range.lower, range.upper, range.inclusive_adjusted), (2, 5, false));
    assert_eq!(range.variable, "N");
    assert_eq!(parsed_body, body);
    let (range, _) = parse_with_bounds(&tokens, Some(5), Some(2)).unwrap();
    assert_eq!((range.lower, range.upper), (5, 5));
    // A bound that does not read is an error at its place.
    assert_eq!(
        parse_with_bounds(&tokens, None, Some(5)),
        Err(error(SyntaxErrorKind::ExpectedInteger, 2))
    );
    assert_eq!(
        parse_with_bounds(&tokens, Some(2), None),
        Err(error(SyntaxErrorKind::ExpectedInteger, 5))
    );
    // The grammar behind the first bound.
    let mut broken = tokens.clone();
    broken[4] = punct(',');
    assert_eq!(
        parse_with_bounds(&broken, Some(2), Some(5)),
        Err(error(SyntaxErrorKind::ExpectedRange, 3))
    );
    let mut broken = tokens.clone();
    broken[6] = name("body");
    assert_eq!(
        parse_with_bounds(&broken, Some(2), Some(5)),
        Err(error(SyntaxErrorKind::ExpectedBody, 6))
    );
    let mut broken = tokens.clone();
    broken.push(punct(';'));
    assert_eq!(
        parse_with_bounds(&broken, Some(2), Some(5)),
        Err(error(SyntaxErrorKind::UnexpectedToken, 7))
    );
    let inclusive = vec![
        name("N"),
        name("in"),
        literal("a"),
        joint('.'),
        joint('.'),
        joint('='),
        literal("b"),
        braces(vec![]),
    ];
    let (range, _) = parse_with_bounds(&inclusive, Some(1), Some(3)).unwrap();
    assert_eq!((range.lower, range.upper, range.inclusive_adjusted), (1, 4, true));
    assert_eq!(
        parse_with_bounds(&inclusive, Some(1), Some(i64::MAX)),
        Err(error(SyntaxErrorKind::BoundTooLarge, 6))
    );
    // Invisible groups are not looked through here.
    let wrapped = vec![Token::Group(Delimiter::Invisible, tokens)];
    assert_eq!(
        parse_with_bounds(&wrapped, Some(2), Some(5)),
        Err(error(SyntaxErrorKind::ExpectedName, 0))
    );
}
