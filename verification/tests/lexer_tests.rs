//! The scanner recognizes each token family and reproduces its exact source
//! text.

use jslex::lexer::{LexError, Lexer};
use jslex::token::Token;

fn first_token(input: &str) -> Option<Result<Token, LexError>> {
    let mut lexer = Lexer::new(input.chars().collect());
    lexer.next_token()
}

fn token_text(tok: Option<Result<Token, LexError>>) -> String {
    match tok {
        Some(Ok(t)) => t.raw_text(),
        Some(Err(e)) => panic!("{:?}", e),
        None => panic!("Didn't get a token from the lexer"),
    }
}

#[test]
fn identifies_whitespace() {
    let input = " \t\t ";
    let output = first_token(input);
    assert_eq!(token_text(output), input);
}

#[test]
fn identifies_comments() {
    let input = "//this is a comment";
    let output = first_token(input);
    assert_eq!(token_text(output), input);
}

#[test]
fn identifies_single_strings() {
    let input = "'this is a string'";
    let output = first_token(input);
    assert_eq!(token_text(output), input);
}

#[test]
fn identifies_double_strings() {
    let input = r#""this is a string""#;
    let output = first_token(input);
    assert_eq!(token_text(output), input);
}

#[test]
fn identifies_div() {
    let input = "/";
    let output = first_token(input);
    assert_eq!(token_text(output), input);
}

#[test]
fn identifies_div_equals() {
    let input = "/=";
    let output = first_token(input);
    assert_eq!(token_text(output), input);
}

#[test]
fn identifies_right_brace() {
    let input = "}";
    let output = first_token(input);
    assert_eq!(token_text(output), input);
}
