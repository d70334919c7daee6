//! Scenario and boundary tests: single-token inputs, malformed inputs that
//! must fail, longest-match disambiguation, round trips, determinism, and
//! position tracking.

use jslex::lexer::{tokenize, LexError, Lexer};
use jslex::token::{CommentStyle, QuoteStyle, Token, TokenType};

fn chars(input: &str) -> Vec<char> {
    input.chars().collect()
}

fn all_tokens(input: &str) -> Vec<Token> {
    match tokenize(chars(input)) {
        Ok(toks) => toks,
        Err(e) => panic!("unexpected error: {:?}", e),
    }
}

fn scan_error(input: &str) -> LexError {
    match tokenize(chars(input)) {
        Ok(toks) => panic!("expected an error, got {} tokens", toks.len()),
        Err(e) => e,
    }
}

#[test]
fn whitespace_run_is_one_token() {
    let toks = all_tokens(" \t\t ");
    assert_eq!(toks.len(), 1);
    assert!(matches!(toks[0].typ, TokenType::WhiteSpace(_)));
    assert_eq!(toks[0].raw_text(), " \t\t ");
}

#[test]
fn line_comment_runs_to_end_of_input() {
    let toks = all_tokens("//this is a comment");
    assert_eq!(toks.len(), 1);
    match &toks[0].typ {
        TokenType::Comment(text, CommentStyle::SingleLine) => {
            assert_eq!(text, "this is a comment");
        },
        other => panic!("wrong token: {:?}", other),
    }
    assert_eq!(toks[0].raw_text(), "//this is a comment");
}

#[test]
fn slash_equals_is_one_token() {
    let toks = all_tokens("/=");
    assert_eq!(toks.len(), 1);
    assert_eq!(toks[0].typ, TokenType::DivEqual);
}

#[test]
fn number_with_fraction_keeps_exact_text() {
    let toks = all_tokens("0.123");
    assert_eq!(toks.len(), 1);
    assert_eq!(toks[0].typ, TokenType::Number("0.123".to_string()));
}

#[test]
fn number_with_exponent_keeps_exact_text() {
    let toks = all_tokens("10e+42");
    assert_eq!(toks.len(), 1);
    assert_eq!(toks[0].typ, TokenType::Number("10e+42".to_string()));
}

#[test]
fn right_brace_at_line_one_column_one() {
    let toks = all_tokens("}");
    assert_eq!(toks.len(), 1);
    assert_eq!(toks[0].typ, TokenType::RightBrace);
    assert_eq!(toks[0].line, 1);
    assert_eq!(toks[0].column, 1);
}

#[test]
fn unterminated_double_string_fails() {
    let e = scan_error("\"abc");
    assert!(matches!(e, LexError::UnexpectedEndOfInput(_)));
}

#[test]
fn unterminated_block_comment_fails() {
    let e = scan_error("/* abc");
    assert!(matches!(e, LexError::UnexpectedEndOfInput(_)));
}

#[test]
fn number_with_bare_period_fails() {
    let e = scan_error("1.");
    assert!(matches!(e, LexError::UnexpectedEndOfInput(_)));
}

#[test]
fn number_with_bad_fraction_fails_on_offending_character() {
    let e = scan_error("1.x");
    match e {
        LexError::UnexpectedCharacter(loc, c) => {
            assert_eq!(c, 'x');
            assert_eq!(loc.line, 1);
            assert_eq!(loc.column, 3);
        },
        other => panic!("wrong error: {:?}", other),
    }
}

#[test]
fn exponent_without_digits_fails() {
    assert!(matches!(scan_error("1e+"), LexError::UnexpectedEndOfInput(_)));
    match scan_error("1e+x") {
        LexError::UnexpectedCharacter(_, c) => assert_eq!(c, 'x'),
        other => panic!("wrong error: {:?}", other),
    }
}

#[test]
fn longest_match_triple_right_shift_equals() {
    let toks = all_tokens(">>>=");
    assert_eq!(toks.len(), 1);
    assert_eq!(toks[0].typ, TokenType::TripleRightShiftEquals);
}

#[test]
fn longest_match_never_splits_operator_families() {
    let cases: Vec<(&str, TokenType)> = vec![
        ("=>", TokenType::Arrow),
        ("===", TokenType::TripleEquals),
        ("==", TokenType::DoubleEquals),
        ("!==", TokenType::NotTripleEquals),
        ("&&", TokenType::LogicalAnd),
        ("||", TokenType::LogicalOr),
        ("^=", TokenType::BinaryXorEquals),
        ("++", TokenType::Increment),
        ("--", TokenType::Decrement),
        ("**=", TokenType::PowerEquals),
        ("**", TokenType::Power),
        ("%=", TokenType::PercentEquals),
        (">>>", TokenType::TripleRightShift),
        (">>=", TokenType::RightShiftEquals),
        ("<<=", TokenType::LeftShiftEquals),
        ("<=", TokenType::LessThanEqualTo),
        ("...", TokenType::Ellipsis),
    ];
    for (input, expected) in cases {
        let toks = all_tokens(input);
        assert_eq!(toks.len(), 1, "input {:?} split into several tokens", input);
        assert_eq!(toks[0].typ, expected, "input {:?}", input);
    }
}

#[test]
fn two_periods_alone_fail() {
    assert!(matches!(scan_error(".."), LexError::UnexpectedEndOfInput(_)));
    match scan_error("..x") {
        LexError::UnexpectedCharacter(_, c) => assert_eq!(c, 'x'),
        other => panic!("wrong error: {:?}", other),
    }
}

#[test]
fn fraction_only_number_keeps_period() {
    let toks = all_tokens(".5");
    assert_eq!(toks.len(), 1);
    assert_eq!(toks[0].typ, TokenType::Number(".5".to_string()));
}

#[test]
fn string_preserves_escapes_verbatim() {
    let input = "'a\\'b\\\\c'";
    let toks = all_tokens(input);
    assert_eq!(toks.len(), 1);
    match &toks[0].typ {
        TokenType::String(text, QuoteStyle::Single) => {
            assert_eq!(text, "a\\'b\\\\c");
        },
        other => panic!("wrong token: {:?}", other),
    }
    assert_eq!(toks[0].raw_text(), input);
}

#[test]
fn string_line_continuation_keeps_crlf_pair() {
    let input = "'a\\\r\nb'";
    let toks = all_tokens(input);
    assert_eq!(toks.len(), 1);
    assert_eq!(toks[0].raw_text(), input);
}

#[test]
fn unescaped_newline_in_string_fails() {
    match scan_error("'a\nb'") {
        LexError::UnexpectedCharacter(loc, c) => {
            assert_eq!(c, '\n');
            assert_eq!(loc.line, 2);
            assert_eq!(loc.column, 1);
        },
        other => panic!("wrong error: {:?}", other),
    }
}

#[test]
fn round_trip_mixed_input() {
    let input = "{ [ ( 1.5e+3 , 'a\\'b' ) ] } /* x\ny */ >>>= ... ; ? : ~ //tail";
    let toks = all_tokens(input);
    let rebuilt: String = toks.iter().map(|t| t.raw_text()).collect::<Vec<_>>().join("");
    assert_eq!(rebuilt, input);
}

#[test]
fn scanning_twice_gives_identical_sequences() {
    let input = "{ 1.5e+3 /* c */ '\\n' >>>= } //end";
    let first = all_tokens(input);
    let second = all_tokens(input);
    assert_eq!(first, second);
}

#[test]
fn block_comment_advances_line_and_column() {
    let toks = all_tokens("/*a\nb*/}");
    assert_eq!(toks.len(), 2);
    assert_eq!(toks[0].line, 1);
    assert_eq!(toks[0].column, 1);
    assert_eq!(toks[1].typ, TokenType::RightBrace);
    assert_eq!(toks[1].line, 2);
    assert_eq!(toks[1].column, 4);
}

#[test]
fn positions_are_lexicographically_non_decreasing() {
    let toks = all_tokens("{ } /*a\nb*/ ( ) ;");
    for pair in toks.windows(2) {
        let a = (pair[0].line, pair[0].column);
        let b = (pair[1].line, pair[1].column);
        assert!(a <= b, "positions went backwards: {:?} then {:?}", a, b);
    }
}

#[test]
fn unexpected_character_is_terminal_with_position() {
    match scan_error("{ @") {
        LexError::UnexpectedCharacter(loc, c) => {
            assert_eq!(c, '@');
            assert_eq!(loc.line, 1);
            assert_eq!(loc.column, 3);
        },
        other => panic!("wrong error: {:?}", other),
    }
}

#[test]
fn pull_iterator_ends_after_input() {
    let mut lexer = Lexer::new(chars("+"));
    let first = lexer.next_token();
    assert!(matches!(first, Some(Ok(_))));
    assert!(lexer.next_token().is_none());
    assert!(lexer.next_token().is_none());
}

#[test]
fn quote_styles_map_to_their_characters() {
    assert_eq!(QuoteStyle::Single.to_char(), '\'');
    assert_eq!(QuoteStyle::Double.to_char(), '"');
}

#[test]
fn block_comment_closes_after_extra_asterisks() {
    let toks = all_tokens("/*a**/");
    assert_eq!(toks.len(), 1);
    match &toks[0].typ {
        TokenType::Comment(text, CommentStyle::MultiLine) => assert_eq!(text, "a*"),
        other => panic!("wrong token: {:?}", other),
    }
    assert_eq!(toks[0].raw_text(), "/*a**/");

    let toks = all_tokens("/***/");
    assert_eq!(toks.len(), 1);
    match &toks[0].typ {
        TokenType::Comment(text, CommentStyle::MultiLine) => assert_eq!(text, "*"),
        other => panic!("wrong token: {:?}", other),
    }

    let toks = all_tokens("/**/");
    assert_eq!(toks.len(), 1);
    match &toks[0].typ {
        TokenType::Comment(text, CommentStyle::MultiLine) => assert_eq!(text, ""),
        other => panic!("wrong token: {:?}", other),
    }
}

#[test]
fn errors_are_terminal_for_the_pull_iterator() {
    let mut lexer = Lexer::new(chars("@}"));
    assert!(matches!(lexer.next_token(), Some(Err(LexError::UnexpectedCharacter(_, '@')))));
    assert!(lexer.next_token().is_none());
    assert!(lexer.next_token().is_none());
}
