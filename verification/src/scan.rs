//! The mathematical scanner: for every input and cursor position, these spec
//! functions say exactly which token or error the scanner produces and where
//! the cursor stands afterwards.  The executable scanner is proved to agree
//! with them branch for branch.

use vstd::prelude::*;

use crate::chars::{is_digit_char, is_line_terminator_char, is_ws_char};
use crate::position::{col_at, line_at, loc_at};
use crate::token::{kind_raw, op_raw, quote_char, CommentStyle, QuoteStyle, TokenKind, TokenType};

verus! {

/// The outcome of an operator sub-scanner: the token produced and the cursor
/// position after it.
pub struct OpStep {
    pub kind: TokenType,
    pub end: int,
}

/// The outcome of a partial scan (a lexeme part or a delimited body): the
/// cursor position after it, or the error it stops on.  In `ErrChar`, `at` is
/// the number of characters the tracker has consumed when the error is
/// reported, so the error's location is `loc_at(s, at)`.
pub enum PartStep {
    Done { end: int },
    ErrChar { at: int, c: char },
    ErrEof,
}

/// The outcome of one dispatch step: a completed token with the cursor
/// position after it, an error, or the end of the input.
pub enum ScanStep {
    Tok { kind: TokenKind, end: int },
    ErrChar { at: int, c: char },
    ErrEof,
    End,
}

/// The end of the maximal run of whitespace characters starting at `i`.
pub open spec fn ws_end(s: Seq<char>, i: int) -> int
    decreases s.len() - i
        when 0 <= i <= s.len()
{
    if i < s.len() && is_ws_char(s[i]) {
        ws_end(s, i + 1)
    } else {
        i
    }
}

/// The end of the maximal run of ASCII digits starting at `i`.
pub open spec fn digit_end(s: Seq<char>, i: int) -> int
    decreases s.len() - i
        when 0 <= i <= s.len()
{
    if i < s.len() && is_digit_char(s[i]) {
        digit_end(s, i + 1)
    } else {
        i
    }
}

/// The end of a line comment's text starting at `i`: the first line
/// terminator at or after `i`, or the end of the input.
pub open spec fn line_comment_end(s: Seq<char>, i: int) -> int
    decreases s.len() - i
        when 0 <= i <= s.len()
{
    if i < s.len() && !is_line_terminator_char(s[i]) {
        line_comment_end(s, i + 1)
    } else {
        i
    }
}

/// Scanning a block comment's body from `i` (just after `/*`): characters are
/// consumed one at a time until a `*` immediately followed by `/` is found
/// (`end` is the position after the `/`) or the input runs out.
pub open spec fn block_end(s: Seq<char>, i: int) -> PartStep
    decreases s.len() - i
        when 0 <= i <= s.len()
{
    if i >= s.len() {
        PartStep::ErrEof
    } else if s[i] == '*' {
        if i + 1 >= s.len() {
            PartStep::ErrEof
        } else if s[i + 1] == '/' {
            PartStep::Done { end: i + 2 }
        } else {
            block_end(s, i + 1)
        }
    } else {
        block_end(s, i + 1)
    }
}

/// Scanning a string literal's body from `i` (just after the opening quote)
/// until the matching closing quote (`end` is the position after it).  A
/// backslash consumes the following character verbatim, except that a
/// carriage return immediately followed by a line feed is consumed as one
/// two-character line continuation.  An unescaped line terminator is an
/// error; so is running out of input before the closing quote.
pub open spec fn string_body_end(s: Seq<char>, i: int, q: QuoteStyle) -> PartStep
    decreases s.len() - i
        when 0 <= i <= s.len()
{
    if i >= s.len() {
        PartStep::ErrEof
    } else if s[i] == quote_char(q) {
        PartStep::Done { end: i + 1 }
    } else if s[i] == '\\' {
        if i + 1 >= s.len() {
            PartStep::ErrEof
        } else if s[i + 1] == '\u{000D}' && i + 2 < s.len() && s[i + 2] == '\u{000A}' {
            string_body_end(s, i + 3, q)
        } else {
            string_body_end(s, i + 2, q)
        }
    } else if is_line_terminator_char(s[i]) {
        PartStep::ErrChar { at: i + 1, c: s[i] }
    } else {
        string_body_end(s, i + 1, q)
    }
}

/// The fractional part of a numeric literal, with `i` at the `.`: the `.`
/// must be followed by at least one digit, then takes the maximal digit run.
pub open spec fn dec_step(s: Seq<char>, i: int) -> PartStep {
    if i + 1 >= s.len() {
        PartStep::ErrEof
    } else if is_digit_char(s[i + 1]) {
        PartStep::Done { end: digit_end(s, i + 1) }
    } else {
        PartStep::ErrChar { at: i + 1, c: s[i + 1] }
    }
}

/// The exponent part of a numeric literal, with `i` at the `e` or `E`: an
/// optional sign, then at least one digit, then the maximal digit run.  The
/// offending character of an `ErrChar` has been consumed when the error is
/// reported, so `at` lies one past it.
pub open spec fn exp_step(s: Seq<char>, i: int) -> PartStep {
    let j = if i + 1 < s.len() && (s[i + 1] == '+' || s[i + 1] == '-') {
        i + 2
    } else {
        i + 1
    };
    if j >= s.len() {
        PartStep::ErrEof
    } else if is_digit_char(s[j]) {
        PartStep::Done { end: digit_end(s, j) }
    } else {
        PartStep::ErrChar { at: j + 1, c: s[j] }
    }
}

/// A whole numeric literal starting at `i`: an optional integer digit run, an
/// optional fractional part, an optional exponent part.
pub open spec fn number_step(s: Seq<char>, i: int) -> PartStep {
    let ie = digit_end(s, i);
    let f = if ie < s.len() && s[ie] == '.' {
        dec_step(s, ie)
    } else {
        PartStep::Done { end: ie }
    };
    match f {
        PartStep::Done { end } => if end < s.len() && (s[end] == 'e' || s[end] == 'E') {
            exp_step(s, end)
        } else {
            PartStep::Done { end }
        },
        _ => f,
    }
}

/// The `=` family under longest match: `=>`, `===`, `==`, `=`.
pub open spec fn equal_step(s: Seq<char>, i: int) -> OpStep {
    if i + 1 < s.len() && s[i + 1] == '>' {
        OpStep { kind: TokenType::Arrow, end: i + 2 }
    } else if i + 1 < s.len() && s[i + 1] == '=' {
        if i + 2 < s.len() && s[i + 2] == '=' {
            OpStep { kind: TokenType::TripleEquals, end: i + 3 }
        } else {
            OpStep { kind: TokenType::DoubleEquals, end: i + 2 }
        }
    } else {
        OpStep { kind: TokenType::Equals, end: i + 1 }
    }
}

/// The `!` family under longest match: `!==`, `!=`, `!`.
pub open spec fn bang_step(s: Seq<char>, i: int) -> OpStep {
    if i + 1 < s.len() && s[i + 1] == '=' {
        if i + 2 < s.len() && s[i + 2] == '=' {
            OpStep { kind: TokenType::NotTripleEquals, end: i + 3 }
        } else {
            OpStep { kind: TokenType::NotEquals, end: i + 2 }
        }
    } else {
        OpStep { kind: TokenType::Bang, end: i + 1 }
    }
}

/// The `&` family under longest match: `&&`, `&=`, `&`.
pub open spec fn ampersand_step(s: Seq<char>, i: int) -> OpStep {
    if i + 1 < s.len() && s[i + 1] == '&' {
        OpStep { kind: TokenType::LogicalAnd, end: i + 2 }
    } else if i + 1 < s.len() && s[i + 1] == '=' {
        OpStep { kind: TokenType::BinaryAndEquals, end: i + 2 }
    } else {
        OpStep { kind: TokenType::BinaryAnd, end: i + 1 }
    }
}

/// The `|` family under longest match: `||`, `|=`, `|`.
pub open spec fn pipe_step(s: Seq<char>, i: int) -> OpStep {
    if i + 1 < s.len() && s[i + 1] == '|' {
        OpStep { kind: TokenType::LogicalOr, end: i + 2 }
    } else if i + 1 < s.len() && s[i + 1] == '=' {
        OpStep { kind: TokenType::BinaryOrEquals, end: i + 2 }
    } else {
        OpStep { kind: TokenType::BinaryOr, end: i + 1 }
    }
}

/// The `^` family under longest match: `^=`, `^`.
pub open spec fn caret_step(s: Seq<char>, i: int) -> OpStep {
    if i + 1 < s.len() && s[i + 1] == '=' {
        OpStep { kind: TokenType::BinaryXorEquals, end: i + 2 }
    } else {
        OpStep { kind: TokenType::BinaryXor, end: i + 1 }
    }
}

/// The `-` family under longest match: `--`, `-=`, `-`.
pub open spec fn minus_step(s: Seq<char>, i: int) -> OpStep {
    if i + 1 < s.len() && s[i + 1] == '-' {
        OpStep { kind: TokenType::Decrement, end: i + 2 }
    } else if i + 1 < s.len() && s[i + 1] == '=' {
        OpStep { kind: TokenType::MinusEquals, end: i + 2 }
    } else {
        OpStep { kind: TokenType::Minus, end: i + 1 }
    }
}

/// The `+` family under longest match: `++`, `+=`, `+`.
pub open spec fn plus_step(s: Seq<char>, i: int) -> OpStep {
    if i + 1 < s.len() && s[i + 1] == '+' {
        OpStep { kind: TokenType::Increment, end: i + 2 }
    } else if i + 1 < s.len() && s[i + 1] == '=' {
        OpStep { kind: TokenType::PlusEquals, end: i + 2 }
    } else {
        OpStep { kind: TokenType::Plus, end: i + 1 }
    }
}

/// The `>` family under longest match: `>>>=`, `>>>`, `>>=`, `>>`, `>=`, `>`.
pub open spec fn gt_step(s: Seq<char>, i: int) -> OpStep {
    if i + 1 < s.len() && s[i + 1] == '=' {
        OpStep { kind: TokenType::GreaterThanEqualTo, end: i + 2 }
    } else if i + 1 < s.len() && s[i + 1] == '>' {
        if i + 2 < s.len() && s[i + 2] == '=' {
            OpStep { kind: TokenType::RightShiftEquals, end: i + 3 }
        } else if i + 2 < s.len() && s[i + 2] == '>' {
            if i + 3 < s.len() && s[i + 3] == '=' {
                OpStep { kind: TokenType::TripleRightShiftEquals, end: i + 4 }
            } else {
                OpStep { kind: TokenType::TripleRightShift, end: i + 3 }
            }
        } else {
            OpStep { kind: TokenType::RightShift, end: i + 2 }
        }
    } else {
        OpStep { kind: TokenType::GreaterThan, end: i + 1 }
    }
}

/// The `<` family under longest match: `<<=`, `<<`, `<=`, `<`.
pub open spec fn lt_step(s: Seq<char>, i: int) -> OpStep {
    if i + 1 < s.len() && s[i + 1] == '<' {
        if i + 2 < s.len() && s[i + 2] == '=' {
            OpStep { kind: TokenType::LeftShiftEquals, end: i + 3 }
        } else {
            OpStep { kind: TokenType::LeftShift, end: i + 2 }
        }
    } else if i + 1 < s.len() && s[i + 1] == '=' {
        OpStep { kind: TokenType::LessThanEqualTo, end: i + 2 }
    } else {
        OpStep { kind: TokenType::LessThan, end: i + 1 }
    }
}

/// The `%` family under longest match: `%=`, `%`.
pub open spec fn percent_step(s: Seq<char>, i: int) -> OpStep {
    if i + 1 < s.len() && s[i + 1] == '=' {
        OpStep { kind: TokenType::PercentEquals, end: i + 2 }
    } else {
        OpStep { kind: TokenType::Percent, end: i + 1 }
    }
}

/// The `*` family under longest match: `**=`, `**`, `*=`, `*`.
pub open spec fn asterisk_step(s: Seq<char>, i: int) -> OpStep {
    if i + 1 < s.len() && s[i + 1] == '*' {
        if i + 2 < s.len() && s[i + 2] == '=' {
            OpStep { kind: TokenType::PowerEquals, end: i + 3 }
        } else {
            OpStep { kind: TokenType::Power, end: i + 2 }
        }
    } else if i + 1 < s.len() && s[i + 1] == '=' {
        OpStep { kind: TokenType::TimesEquals, end: i + 2 }
    } else {
        OpStep { kind: TokenType::Times, end: i + 1 }
    }
}

/// An operator outcome as a dispatch outcome.
pub open spec fn op_tok(o: OpStep) -> ScanStep {
    ScanStep::Tok { kind: TokenKind::Op(o.kind), end: o.end }
}

/// A numeric-literal outcome as a dispatch outcome.
pub open spec fn number_tok(s: Seq<char>, i: int) -> ScanStep {
    match number_step(s, i) {
        PartStep::Done { end } => ScanStep::Tok { kind: TokenKind::Number(s.subrange(i, end)), end },
        PartStep::ErrChar { at, c } => ScanStep::ErrChar { at, c },
        PartStep::ErrEof => ScanStep::ErrEof,
    }
}

/// The `/` family: `//` starts a line comment, `/*` a block comment, `/=` is
/// the compound division assignment, anything else leaves plain division.
pub open spec fn slash_step(s: Seq<char>, i: int) -> ScanStep {
    if i + 1 < s.len() && s[i + 1] == '/' {
        ScanStep::Tok {
            kind: TokenKind::Comment(
                s.subrange(i + 2, line_comment_end(s, i + 2)),
                CommentStyle::SingleLine,
            ),
            end: line_comment_end(s, i + 2),
        }
    } else if i + 1 < s.len() && s[i + 1] == '*' {
        match block_end(s, i + 2) {
            PartStep::Done { end } => ScanStep::Tok {
                kind: TokenKind::Comment(s.subrange(i + 2, end - 2), CommentStyle::MultiLine),
                end,
            },
            PartStep::ErrChar { at, c } => ScanStep::ErrChar { at, c },
            PartStep::ErrEof => ScanStep::ErrEof,
        }
    } else if i + 1 < s.len() && s[i + 1] == '=' {
        ScanStep::Tok { kind: TokenKind::Op(TokenType::DivEqual), end: i + 2 }
    } else {
        ScanStep::Tok { kind: TokenKind::Op(TokenType::Div), end: i + 1 }
    }
}

/// A string literal starting at the opening quote `i`.
pub open spec fn string_step(s: Seq<char>, i: int, q: QuoteStyle) -> ScanStep {
    match string_body_end(s, i + 1, q) {
        PartStep::Done { end } => ScanStep::Tok {
            kind: TokenKind::Str(s.subrange(i + 1, end - 1), q),
            end,
        },
        PartStep::ErrChar { at, c } => ScanStep::ErrChar { at, c },
        PartStep::ErrEof => ScanStep::ErrEof,
    }
}

/// The `.` family: `...` is the ellipsis (two periods alone are an error), a
/// following digit starts a numeric literal with a fractional part, anything
/// else leaves a plain period.
pub open spec fn period_step(s: Seq<char>, i: int) -> ScanStep {
    if i + 1 < s.len() && s[i + 1] == '.' {
        if i + 2 >= s.len() {
            ScanStep::ErrEof
        } else if s[i + 2] == '.' {
            ScanStep::Tok { kind: TokenKind::Op(TokenType::Ellipsis), end: i + 3 }
        } else {
            ScanStep::ErrChar { at: i + 3, c: s[i + 2] }
        }
    } else if i + 1 < s.len() && is_digit_char(s[i + 1]) {
        number_tok(s, i)
    } else {
        ScanStep::Tok { kind: TokenKind::Op(TokenType::Period), end: i + 1 }
    }
}

/// One dispatch step of the scanner at position `i`: the token or error that
/// the next call produces, and the cursor position after it.
pub open spec fn spec_next(s: Seq<char>, i: int) -> ScanStep {
    if i >= s.len() {
        ScanStep::End
    } else {
        let c = s[i];
        if is_ws_char(c) {
            ScanStep::Tok { kind: TokenKind::WhiteSpace(s.subrange(i, ws_end(s, i))), end: ws_end(s, i) }
        } else if is_digit_char(c) {
            number_tok(s, i)
        } else if c == '/' {
            slash_step(s, i)
        } else if c == '\'' {
            string_step(s, i, QuoteStyle::Single)
        } else if c == '"' {
            string_step(s, i, QuoteStyle::Double)
        } else if c == '{' {
            ScanStep::Tok { kind: TokenKind::Op(TokenType::LeftBrace), end: i + 1 }
        } else if c == '}' {
            ScanStep::Tok { kind: TokenKind::Op(TokenType::RightBrace), end: i + 1 }
        } else if c == '=' {
            op_tok(equal_step(s, i))
        } else if c == '!' {
            op_tok(bang_step(s, i))
        } else if c == '&' {
            op_tok(ampersand_step(s, i))
        } else if c == '|' {
            op_tok(pipe_step(s, i))
        } else if c == '^' {
            op_tok(caret_step(s, i))
        } else if c == '(' {
            ScanStep::Tok { kind: TokenKind::Op(TokenType::LeftParen), end: i + 1 }
        } else if c == ')' {
            ScanStep::Tok { kind: TokenKind::Op(TokenType::RightParen), end: i + 1 }
        } else if c == ']' {
            ScanStep::Tok { kind: TokenKind::Op(TokenType::RightBracket), end: i + 1 }
        } else if c == '[' {
            ScanStep::Tok { kind: TokenKind::Op(TokenType::LeftBracket), end: i + 1 }
        } else if c == ':' {
            ScanStep::Tok { kind: TokenKind::Op(TokenType::Colon), end: i + 1 }
        } else if c == ',' {
            ScanStep::Tok { kind: TokenKind::Op(TokenType::Comma), end: i + 1 }
        } else if c == '+' {
            op_tok(plus_step(s, i))
        } else if c == '-' {
            op_tok(minus_step(s, i))
        } else if c == '>' {
            op_tok(gt_step(s, i))
        } else if c == '<' {
            op_tok(lt_step(s, i))
        } else if c == '.' {
            period_step(s, i)
        } else if c == '%' {
            op_tok(percent_step(s, i))
        } else if c == '*' {
            op_tok(asterisk_step(s, i))
        } else if c == '~' {
            ScanStep::Tok { kind: TokenKind::Op(TokenType::Tilde), end: i + 1 }
        } else if c == ';' {
            ScanStep::Tok { kind: TokenKind::Op(TokenType::Semicolon), end: i + 1 }
        } else if c == '?' {
            ScanStep::Tok { kind: TokenKind::Op(TokenType::Question), end: i + 1 }
        } else {
            ScanStep::ErrChar { at: i, c }
        }
    }
}

} // verus!

use vstd::prelude::*;

verus! {

/// Whitespace runs stay inside the input.
pub proof fn lemma_ws_end(s: Seq<char>, i: int)
    requires
        0 <= i <= s.len(),
    ensures
        i <= ws_end(s, i) <= s.len(),
    decreases s.len() - i,
{
    if i < s.len() && is_ws_char(s[i]) {
        lemma_ws_end(s, i + 1);
    }
}

/// Digit runs stay inside the input.
pub proof fn lemma_digit_end(s: Seq<char>, i: int)
    requires
        0 <= i <= s.len(),
    ensures
        i <= digit_end(s, i) <= s.len(),
    decreases s.len() - i,
{
    if i < s.len() && is_digit_char(s[i]) {
        lemma_digit_end(s, i + 1);
    }
}

/// Line-comment text stays inside the input.
pub proof fn lemma_line_comment_end(s: Seq<char>, i: int)
    requires
        0 <= i <= s.len(),
    ensures
        i <= line_comment_end(s, i) <= s.len(),
    decreases s.len() - i,
{
    if i < s.len() && !is_line_terminator_char(s[i]) {
        lemma_line_comment_end(s, i + 1);
    }
}

/// A completed block-comment body ends exactly on a `*/` inside the input,
/// and scanning one never stops on an unexpected character.
pub proof fn lemma_block_end(s: Seq<char>, i: int)
    requires
        0 <= i <= s.len(),
    ensures
        match block_end(s, i) {
            PartStep::Done { end } => i + 2 <= end <= s.len() && s[end - 2] == '*' && s[end - 1]
                == '/',
            PartStep::ErrChar { .. } => false,
            PartStep::ErrEof => true,
        },
    decreases s.len() - i,
{
    if i >= s.len() {
    } else if s[i] == '*' {
        if i + 1 >= s.len() {
        } else if s[i + 1] == '/' {
        } else {
            lemma_block_end(s, i + 1);
        }
    } else {
        lemma_block_end(s, i + 1);
    }
}

/// A completed string body ends exactly on the closing quote inside the
/// input, and an unexpected character is reported just after it is consumed.
pub proof fn lemma_string_body_end(s: Seq<char>, i: int, q: QuoteStyle)
    requires
        0 <= i <= s.len(),
    ensures
        match string_body_end(s, i, q) {
            PartStep::Done { end } => i < end <= s.len() && s[end - 1] == quote_char(q),
            PartStep::ErrChar { at, c } => i < at <= s.len() && c == s[at - 1],
            PartStep::ErrEof => true,
        },
    decreases s.len() - i,
{
    if i >= s.len() {
    } else if s[i] == quote_char(q) {
    } else if s[i] == '\\' {
        if i + 1 >= s.len() {
        } else if s[i + 1] == '\u{000D}' && i + 2 < s.len() && s[i + 2] == '\u{000A}' {
            lemma_string_body_end(s, i + 3, q);
        } else {
            lemma_string_body_end(s, i + 2, q);
        }
    } else if is_line_terminator_char(s[i]) {
    } else {
        lemma_string_body_end(s, i + 1, q);
    }
}

/// A completed numeric literal is non-empty and stays inside the input, and
/// its error positions lie inside the input too.
pub proof fn lemma_number_step(s: Seq<char>, i: int)
    requires
        0 <= i < s.len(),
        is_digit_char(s[i]) || (s[i] == '.' && i + 1 < s.len() && is_digit_char(s[i + 1])),
    ensures
        match number_step(s, i) {
            PartStep::Done { end } => i < end <= s.len(),
            PartStep::ErrChar { at, .. } => i < at <= s.len(),
            PartStep::ErrEof => true,
        },
{
    lemma_digit_end(s, i);
    let ie = digit_end(s, i);
    if is_digit_char(s[i]) {
        assert(digit_end(s, i) == digit_end(s, i + 1));
        lemma_digit_end(s, i + 1);
    }
    if ie < s.len() && s[ie] == '.' {
        if ie + 1 < s.len() && is_digit_char(s[ie + 1]) {
            lemma_digit_end(s, ie + 1);
            assert(digit_end(s, ie + 1) == digit_end(s, ie + 2));
            lemma_digit_end(s, ie + 2);
        }
    }
    match (if ie < s.len() && s[ie] == '.' {
        dec_step(s, ie)
    } else {
        PartStep::Done { end: ie }
    }) {
        PartStep::Done { end } => {
            if end < s.len() && (s[end] == 'e' || s[end] == 'E') {
                let j = if end + 1 < s.len() && (s[end + 1] == '+' || s[end + 1] == '-') {
                    end + 2
                } else {
                    end + 1
                };
                if j < s.len() && is_digit_char(s[j]) {
                    lemma_digit_end(s, j);
                }
            }
        },
        _ => {},
    }
}

} // verus!

verus! {

/// Every token that one dispatch step produces consumes at least one
/// character, stays inside the input, and its raw text is exactly the
/// consumed slice of the input; error positions stay inside the input.  This
/// is the heart of the lossless round trip.
#[verifier::rlimit(60)]
pub proof fn lemma_next_raw(s: Seq<char>, i: int)
    requires
        0 <= i <= s.len(),
    ensures
        match spec_next(s, i) {
            ScanStep::Tok { kind, end } => i < end <= s.len() && kind_raw(kind) == s.subrange(
                i,
                end,
            ),
            ScanStep::ErrChar { at, .. } => i <= at <= s.len(),
            ScanStep::ErrEof => true,
            ScanStep::End => i == s.len(),
        },
{
    reveal_strlit("/");
    reveal_strlit("/=");
    reveal_strlit("//");
    reveal_strlit("/*");
    reveal_strlit("*/");
    reveal_strlit("=>");
    reveal_strlit("===");
    reveal_strlit("==");
    reveal_strlit("=");
    reveal_strlit("!==");
    reveal_strlit("!=");
    reveal_strlit("!");
    reveal_strlit("&&");
    reveal_strlit("&=");
    reveal_strlit("&");
    reveal_strlit("||");
    reveal_strlit("|=");
    reveal_strlit("|");
    reveal_strlit("^=");
    reveal_strlit("^");
    reveal_strlit("--");
    reveal_strlit("-=");
    reveal_strlit("-");
    reveal_strlit("++");
    reveal_strlit("+=");
    reveal_strlit("+");
    reveal_strlit(">=");
    reveal_strlit(">>=");
    reveal_strlit(">>>=");
    reveal_strlit(">>>");
    reveal_strlit(">>");
    reveal_strlit(">");
    reveal_strlit("<<=");
    reveal_strlit("<<");
    reveal_strlit("<=");
    reveal_strlit("<");
    reveal_strlit("...");
    reveal_strlit(".");
    reveal_strlit("{");
    reveal_strlit("}");
    reveal_strlit("(");
    reveal_strlit(")");
    reveal_strlit("[");
    reveal_strlit("]");
    reveal_strlit(":");
    reveal_strlit(",");
    reveal_strlit("~");
    reveal_strlit(";");
    reveal_strlit("?");
    reveal_strlit("**");
    reveal_strlit("**=");
    reveal_strlit("*");
    reveal_strlit("*=");
    reveal_strlit("%");
    reveal_strlit("%=");
    if i >= s.len() {
        return ;
    }
    let c = s[i];
    if is_ws_char(c) {
        assert(ws_end(s, i) == ws_end(s, i + 1));
        lemma_ws_end(s, i + 1);
    } else if is_digit_char(c) {
        lemma_number_step(s, i);
    } else if c == '/' {
        if i + 1 < s.len() && s[i + 1] == '/' {
            lemma_line_comment_end(s, i + 2);
            let e = line_comment_end(s, i + 2);
            assert(kind_raw(
                TokenKind::Comment(s.subrange(i + 2, e), CommentStyle::SingleLine),
            ) =~= s.subrange(i, e));
        } else if i + 1 < s.len() && s[i + 1] == '*' {
            lemma_block_end(s, i + 2);
            match block_end(s, i + 2) {
                PartStep::Done { end } => {
                    assert(kind_raw(
                        TokenKind::Comment(s.subrange(i + 2, end - 2), CommentStyle::MultiLine),
                    ) =~= s.subrange(i, end));
                },
                _ => {},
            }
        } else if i + 1 < s.len() && s[i + 1] == '=' {
            assert(op_raw(TokenType::DivEqual) =~= s.subrange(i, i + 2));
        } else {
            assert(op_raw(TokenType::Div) =~= s.subrange(i, i + 1));
        }
    } else if c == '\'' || c == '"' {
        let q = if c == '\'' {
            QuoteStyle::Single
        } else {
            QuoteStyle::Double
        };
        lemma_string_body_end(s, i + 1, q);
        match string_body_end(s, i + 1, q) {
            PartStep::Done { end } => {
                assert(kind_raw(TokenKind::Str(s.subrange(i + 1, end - 1), q)) =~= s.subrange(
                    i,
                    end,
                ));
            },
            _ => {},
        }
    } else if c == '.' {
        if i + 1 < s.len() && s[i + 1] == '.' {
            if i + 2 < s.len() && s[i + 2] == '.' {
                assert(op_raw(TokenType::Ellipsis) =~= s.subrange(i, i + 3));
            }
        } else if i + 1 < s.len() && is_digit_char(s[i + 1]) {
            lemma_number_step(s, i);
        } else {
            assert(op_raw(TokenType::Period) =~= s.subrange(i, i + 1));
        }
    } else {
        match spec_next(s, i) {
            ScanStep::Tok { kind, end } => {
                assert(kind_raw(kind) =~= s.subrange(i, end));
            },
            _ => {},
        }
    }
}

} // verus!
