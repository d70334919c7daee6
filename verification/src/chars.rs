//! Character classification: the pure predicates that the dispatcher and the
//! sub-scanners consult to pick a scanning routine.

use vstd::prelude::*;

verus! {

/// The recognized line-terminator characters.
pub open spec fn is_line_terminator_char(c: char) -> bool {
    c == '\u{000A}' || c == '\u{000D}' || c == '\u{2028}' || c == '\u{2029}'
}

/// The recognized whitespace characters.
pub open spec fn is_ws_char(c: char) -> bool {
    c == '\u{0009}' || c == '\u{000B}' || c == '\u{000C}' || c == '\u{0020}'
        || c == '\u{00A0}' || c == '\u{1680}' || c == '\u{2000}' || c == '\u{2001}'
        || c == '\u{2002}' || c == '\u{2003}' || c == '\u{2004}' || c == '\u{2005}'
        || c == '\u{2006}' || c == '\u{2007}' || c == '\u{2008}' || c == '\u{2009}'
        || c == '\u{200A}' || c == '\u{202F}' || c == '\u{205F}' || c == '\u{FEFF}'
}

/// The ASCII decimal digits.
pub open spec fn is_digit_char(c: char) -> bool {
    c == '0' || c == '1' || c == '2' || c == '3' || c == '4'
        || c == '5' || c == '6' || c == '7' || c == '8' || c == '9'
}

pub fn is_line_terminator(c: char) -> (r: bool)
    ensures
        r == is_line_terminator_char(c),
{
    match c {
        '\u{000A}' | '\u{000D}' | '\u{2028}' | '\u{2029}' => true,
        _ => false,
    }
}

pub fn is_ws(c: char) -> (r: bool)
    ensures
        r == is_ws_char(c),
{
    match c {
        '\u{0009}' | '\u{000B}' | '\u{000C}' | '\u{0020}'
        | '\u{00A0}' | '\u{1680}' | '\u{2000}' | '\u{2001}'
        | '\u{2002}' | '\u{2003}' | '\u{2004}' | '\u{2005}'
        | '\u{2006}' | '\u{2007}' | '\u{2008}' | '\u{2009}'
        | '\u{200A}' | '\u{202F}' | '\u{205F}' | '\u{FEFF}' => true,
        _ => false,
    }
}

pub fn is_digit(c: char) -> (r: bool)
    ensures
        r == is_digit_char(c),
{
    match c {
        '0' | '1' | '2' | '3' | '4' | '5' | '6' | '7' | '8' | '9' => true,
        _ => false,
    }
}

} // verus!
