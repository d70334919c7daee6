//! A format-preserving lexical scanner for a JavaScript-family token grammar.
//!
//! The scanner turns a sequence of Unicode scalar values into a sequence of
//! classified tokens (whitespace, comments, string literals, numeric literals,
//! and a fixed set of punctuators and operators), keeping the exact source
//! text of every token so that concatenating the tokens' raw text reproduces
//! the input byte for byte.  Malformed input stops the scan with a positioned
//! error; the scanner never recovers or skips characters.

pub mod chars;
pub mod laws;
pub mod lexer;
pub mod position;
pub mod scan;
pub mod token;
