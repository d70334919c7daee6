//! The executable scanner: a pull-based iterator over an input character
//! sequence, proved to produce exactly the tokens and errors that the
//! mathematical scanner in `scan` describes.

use vstd::prelude::*;

use crate::chars::{is_digit, is_digit_char, is_line_terminator, is_ws};
use crate::position::{col_at, line_at, loc_at, Location};
use crate::scan::{ampersand_step, asterisk_step, bang_step, block_end, caret_step, dec_step,
    digit_end, equal_step, exp_step, gt_step, lemma_block_end, lemma_digit_end, lemma_next_raw,
    lemma_string_body_end, line_comment_end, lt_step, minus_step, number_step, percent_step,
    period_step, pipe_step, plus_step, slash_step, spec_next, string_body_end, ws_end, PartStep,
    ScanStep};
use crate::token::{quote_char, CommentStyle, QuoteStyle, Token, TokenType, TokenView};

verus! {

/// An error that stops the scan: a character that cannot legally continue the
/// lexeme being scanned, or the input ending in the middle of one.  The
/// location is where the failure was detected.
#[derive(Clone, Copy, PartialEq, Eq, Structural, Debug)]
pub enum LexError {
    UnexpectedCharacter(Location, char),
    UnexpectedEndOfInput(Location),
}

/// Builds a `String` from a vector of characters.
///
/// Relies on `String: FromIterator<char>` (`Iterator::collect`): the
/// resulting string holds exactly the given characters in order.
#[verifier::external_body]
pub(crate) fn chars_to_string(v: &Vec<char>) -> (s: String)
    ensures
        s@ == v@,
{
    v.iter().collect()
}

/// The scanner: an input character sequence, a cursor into it, and the
/// position tracker's line and column counters.
pub struct Lexer {
    column: u32,
    line: u32,
    stream: Vec<char>,
    pos: usize,
    failed: bool,
}

impl Lexer {
    /// The scanner's invariant: the cursor stays inside the input, the input
    /// is short enough for the 32-bit counters, and the counters hold exactly
    /// the line and column reached after consuming the characters before the
    /// cursor.
    pub closed spec fn wf(self) -> bool {
        &&& self.pos <= self.stream@.len()
        &&& self.stream@.len() < 0xFFFF_FFFFusize
        &&& self.line as int == line_at(self.stream@.take(self.pos as int))
        &&& self.column as int == col_at(self.stream@.take(self.pos as int))
    }

    /// The input the scanner was created over.
    pub closed spec fn input(self) -> Seq<char> {
        self.stream@
    }

    /// How many characters the scanner has consumed.
    pub closed spec fn cursor(self) -> int {
        self.pos as int
    }

    /// Whether an earlier call has produced an error.  Errors are terminal:
    /// once one is reported, the scanner produces nothing further.
    pub closed spec fn has_failed(self) -> bool {
        self.failed
    }

    /// A scanner at the start of `stream`, at line 1, column 1.
    pub fn new(stream: Vec<char>) -> (l: Lexer)
        requires
            stream@.len() < 0xFFFF_FFFFusize,
        ensures
            l.wf(),
            l.input() == stream@,
            l.cursor() == 0,
            !l.has_failed(),
    {
        proof {
            assert(stream@.take(0) =~= Seq::<char>::empty());
        }
        Lexer { column: 1, line: 1, stream, pos: 0, failed: false }
    }

    /// The position of the next character to be consumed.
    fn get_location(&self) -> (loc: Location)
        requires
            self.wf(),
        ensures
            loc == loc_at(self.input(), self.cursor()),
    {
        Location::new(self.line, self.column)
    }

    /// Consumes one character, advancing the position tracker: a line
    /// terminator starts a new line, any other character advances the column.
    fn next_char(&mut self) -> (r: Option<char>)
        requires
            old(self).wf(),
        ensures
            final(self).wf(),
            final(self).input() == old(self).input(),
            old(self).cursor() < old(self).input().len() ==> r == Some(
                old(self).input()[old(self).cursor()],
            ) && final(self).cursor() == old(self).cursor() + 1,
            old(self).cursor() >= old(self).input().len() ==> r == None::<char> && *final(self)
                == *old(self),
    {
        if self.pos < self.stream.len() {
            let c = self.stream[self.pos];
            proof {
                crate::position::lemma_tracker_step(self.stream@, self.pos as int);
                crate::position::lemma_line_col_bounds(self.stream@.take(self.pos as int + 1));
                assert(self.stream@.take(self.pos as int + 1).len() == self.pos + 1);
            }
            self.pos = self.pos + 1;
            if is_line_terminator(c) {
                self.line = self.line + 1;
                self.column = 1;
            } else {
                self.column = self.column + 1;
            }
            Some(c)
        } else {
            None
        }
    }

    /// The next character, if any, without consuming it.
    fn peek(&self) -> (r: Option<char>)
        ensures
            r == (if self.cursor() < self.input().len() {
                Some(self.input()[self.cursor()])
            } else {
                None::<char>
            }),
    {
        if self.pos < self.stream.len() {
            Some(self.stream[self.pos])
        } else {
            None
        }
    }

    /// Consumes one character, discarding it.
    fn skip(&mut self)
        requires
            old(self).wf(),
        ensures
            final(self).wf(),
            final(self).input() == old(self).input(),
            old(self).cursor() < old(self).input().len() ==> final(self).cursor() == old(
                self,
            ).cursor() + 1,
            old(self).cursor() >= old(self).input().len() ==> *final(self) == *old(self),
    {
        self.next_char();
    }

    /// The error for a character that cannot continue the current lexeme,
    /// carrying the tracker's current position.
    fn unexpected_char(&self, c: char) -> (e: LexError)
        requires
            self.wf(),
        ensures
            e == LexError::UnexpectedCharacter(loc_at(self.input(), self.cursor()), c),
    {
        let loc = self.get_location();
        LexError::UnexpectedCharacter(loc, c)
    }

    /// The error for input that ends in the middle of a lexeme, carrying the
    /// tracker's current position.
    fn unexpected_eof(&self) -> (e: LexError)
        requires
            self.wf(),
        ensures
            e == LexError::UnexpectedEndOfInput(loc_at(self.input(), self.cursor())),
    {
        let loc = self.get_location();
        LexError::UnexpectedEndOfInput(loc)
    }

    /// Consumes the single character of a one-character token and builds the
    /// token at `loc`.
    fn scalar(&mut self, loc: Location, typ: TokenType) -> (t: Token)
        requires
            old(self).wf(),
            old(self).cursor() < old(self).input().len(),
        ensures
            final(self).wf(),
            final(self).input() == old(self).input(),
            final(self).cursor() == old(self).cursor() + 1,
            t.line == loc.line,
            t.column == loc.column,
            t.typ == typ,
    {
        self.skip();
        Token::new(loc, typ)
    }
}

} // verus!

verus! {

impl Lexer {
    /// Consumes the maximal run of whitespace characters, appending them to
    /// `buf` verbatim.
    fn push_while_ws(&mut self, buf: &mut Vec<char>)
        requires
            old(self).wf(),
        ensures
            final(self).wf(),
            final(self).input() == old(self).input(),
            final(self).cursor() == ws_end(old(self).input(), old(self).cursor()),
            final(buf)@ == old(buf)@ + old(self).input().subrange(
                old(self).cursor(),
                final(self).cursor(),
            ),
    {
        let ghost s = self.stream@;
        let ghost i0 = self.pos as int;
        let ghost b0 = buf@;
        proof {
            assert(b0 + s.subrange(i0, i0) =~= b0);
        }
        loop
            invariant
                self.wf(),
                self.stream@ == s,
                0 <= i0 <= self.pos as int <= s.len(),
                ws_end(s, self.pos as int) == ws_end(s, i0),
                buf@ == b0 + s.subrange(i0, self.pos as int),
            ensures
                self.wf(),
                self.stream@ == s,
                0 <= i0 <= self.pos as int <= s.len(),
                self.pos as int == ws_end(s, i0),
                buf@ == b0 + s.subrange(i0, self.pos as int),
            decreases s.len() - self.pos,
        {
            match self.peek() {
                Some(x) => {
                    if !is_ws(x) {
                        break ;
                    }
                    let ghost p = self.pos as int;
                    buf.push(x);
                    self.skip();
                    proof {
                        assert(s.subrange(i0, p + 1) =~= s.subrange(i0, p) + seq![s[p]]);
                    }
                },
                None => {
                    break ;
                },
            }
        }
    }

    /// Consumes the maximal run of ASCII digits, appending them to `buf`
    /// verbatim.
    fn push_while_digit(&mut self, buf: &mut Vec<char>)
        requires
            old(self).wf(),
        ensures
            final(self).wf(),
            final(self).input() == old(self).input(),
            final(self).cursor() == digit_end(old(self).input(), old(self).cursor()),
            final(buf)@ == old(buf)@ + old(self).input().subrange(
                old(self).cursor(),
                final(self).cursor(),
            ),
    {
        let ghost s = self.stream@;
        let ghost i0 = self.pos as int;
        let ghost b0 = buf@;
        proof {
            assert(b0 + s.subrange(i0, i0) =~= b0);
        }
        loop
            invariant
                self.wf(),
                self.stream@ == s,
                0 <= i0 <= self.pos as int <= s.len(),
                digit_end(s, self.pos as int) == digit_end(s, i0),
                buf@ == b0 + s.subrange(i0, self.pos as int),
            ensures
                self.wf(),
                self.stream@ == s,
                0 <= i0 <= self.pos as int <= s.len(),
                self.pos as int == digit_end(s, i0),
                buf@ == b0 + s.subrange(i0, self.pos as int),
            decreases s.len() - self.pos,
        {
            match self.peek() {
                Some(x) => {
                    if !is_digit(x) {
                        break ;
                    }
                    let ghost p = self.pos as int;
                    buf.push(x);
                    self.skip();
                    proof {
                        assert(s.subrange(i0, p + 1) =~= s.subrange(i0, p) + seq![s[p]]);
                    }
                },
                None => {
                    break ;
                },
            }
        }
    }

    /// Consumes everything up to (not including) the next line terminator or
    /// the end of the input, appending it to `buf` verbatim.
    fn push_while_not_terminator(&mut self, buf: &mut Vec<char>)
        requires
            old(self).wf(),
        ensures
            final(self).wf(),
            final(self).input() == old(self).input(),
            final(self).cursor() == line_comment_end(old(self).input(), old(self).cursor()),
            final(buf)@ == old(buf)@ + old(self).input().subrange(
                old(self).cursor(),
                final(self).cursor(),
            ),
    {
        let ghost s = self.stream@;
        let ghost i0 = self.pos as int;
        let ghost b0 = buf@;
        proof {
            assert(b0 + s.subrange(i0, i0) =~= b0);
        }
        loop
            invariant
                self.wf(),
                self.stream@ == s,
                0 <= i0 <= self.pos as int <= s.len(),
                line_comment_end(s, self.pos as int) == line_comment_end(s, i0),
                buf@ == b0 + s.subrange(i0, self.pos as int),
            ensures
                self.wf(),
                self.stream@ == s,
                0 <= i0 <= self.pos as int <= s.len(),
                self.pos as int == line_comment_end(s, i0),
                buf@ == b0 + s.subrange(i0, self.pos as int),
            decreases s.len() - self.pos,
        {
            match self.peek() {
                Some(x) => {
                    if is_line_terminator(x) {
                        break ;
                    }
                    let ghost p = self.pos as int;
                    buf.push(x);
                    self.skip();
                    proof {
                        assert(s.subrange(i0, p + 1) =~= s.subrange(i0, p) + seq![s[p]]);
                    }
                },
                None => {
                    break ;
                },
            }
        }
    }

    /// Scans the maximal whitespace run at the cursor into a whitespace
    /// token.
    fn ws(&mut self) -> (t: TokenType)
        requires
            old(self).wf(),
        ensures
            final(self).wf(),
            final(self).input() == old(self).input(),
            final(self).cursor() == ws_end(old(self).input(), old(self).cursor()),
            t matches TokenType::WhiteSpace(x) && x@ == old(self).input().subrange(
                old(self).cursor(),
                final(self).cursor(),
            ),
    {
        let mut buf: Vec<char> = Vec::new();
        self.push_while_ws(&mut buf);
        TokenType::WhiteSpace(chars_to_string(&buf))
    }
}

} // verus!

verus! {

impl Lexer {
    /// Scans a comment whose second delimiter character (`/` or `*`) stands
    /// at the cursor, building the token at `loc`.  A line comment runs to
    /// the next line terminator or the end of the input; a block comment must
    /// be closed by `*/` or the scan fails.
    fn comment(&mut self, loc: Location, style: CommentStyle) -> (r: Result<Token, LexError>)
        requires
            old(self).wf(),
            old(self).cursor() < old(self).input().len(),
        ensures
            final(self).wf(),
            final(self).input() == old(self).input(),
            match style {
                CommentStyle::SingleLine => {
                    &&& r matches Ok(t)
                    &&& t.typ matches TokenType::Comment(x, st2)
                    &&& st2 == style
                    &&& x@ == old(self).input().subrange(
                        old(self).cursor() + 1,
                        line_comment_end(old(self).input(), old(self).cursor() + 1),
                    )
                    &&& t.line == loc.line
                    &&& t.column == loc.column
                    &&& final(self).cursor() == line_comment_end(
                        old(self).input(),
                        old(self).cursor() + 1,
                    )
                },
                CommentStyle::MultiLine => match block_end(
                    old(self).input(),
                    old(self).cursor() + 1,
                ) {
                    PartStep::Done { end } => {
                        &&& r matches Ok(t)
                        &&& t.typ matches TokenType::Comment(x, st2)
                        &&& st2 == style
                        &&& x@ == old(self).input().subrange(old(self).cursor() + 1, end - 2)
                        &&& t.line == loc.line
                        &&& t.column == loc.column
                        &&& final(self).cursor() == end
                    },
                    PartStep::ErrChar { .. } => false,
                    PartStep::ErrEof => r == Err::<Token, LexError>(
                        LexError::UnexpectedEndOfInput(
                            loc_at(old(self).input(), old(self).input().len() as int),
                        ),
                    ) && final(self).cursor() == old(self).input().len(),
                },
            },
    {
        let ghost s = self.stream@;
        let ghost i0 = self.pos as int;
        proof {
            lemma_block_end(s, i0 + 1);
        }
        let mut buf: Vec<char> = Vec::new();
        self.skip();
        match style {
            CommentStyle::SingleLine => {
                self.push_while_not_terminator(&mut buf);
                proof {
                    assert(Seq::<char>::empty() + s.subrange(i0 + 1, self.pos as int)
                        =~= s.subrange(i0 + 1, self.pos as int));
                }
                Ok(Token::new(loc, TokenType::Comment(chars_to_string(&buf), style)))
            },
            CommentStyle::MultiLine => {
                proof {
                    assert(buf@ =~= s.subrange(i0 + 1, i0 + 1));
                }
                loop
                    invariant_except_break
                        block_end(s, self.pos as int) == block_end(s, i0 + 1),
                        buf@ == s.subrange(i0 + 1, self.pos as int),
                    invariant
                        self.wf(),
                        self.stream@ == s,
                        s == old(self).input(),
                        i0 == old(self).cursor(),
                        style == CommentStyle::MultiLine,
                        0 <= i0,
                        i0 + 1 <= self.pos as int <= s.len(),
                    ensures
                        self.wf(),
                        self.stream@ == s,
                        0 <= i0,
                        block_end(s, i0 + 1) matches PartStep::Done { end } && self.pos as int
                            == end && buf@ == s.subrange(i0 + 1, end - 2),
                    decreases s.len() - self.pos,
                {
                    let ghost p = self.pos as int;
                    match self.next_char() {
                        Some(c) => {
                            if c == '*' {
                                match self.peek() {
                                    Some('/') => {
                                        self.skip();
                                        break ;
                                    },
                                    _ => {
                                        buf.push('*');
                                        proof {
                                            assert(s.subrange(i0 + 1, p + 1) =~= s.subrange(
                                                i0 + 1,
                                                p,
                                            ) + seq![s[p]]);
                                        }
                                    },
                                }
                            } else {
                                buf.push(c);
                                proof {
                                    assert(s.subrange(i0 + 1, p + 1) =~= s.subrange(i0 + 1, p)
                                        + seq![s[p]]);
                                }
                            }
                        },
                        None => {
                            return Err(self.unexpected_eof());
                        },
                    }
                }
                Ok(Token::new(loc, TokenType::Comment(chars_to_string(&buf), style)))
            },
        }
    }

    /// Consumes the character (or carriage-return line-feed pair) following a
    /// just-consumed backslash inside a string literal, appending the
    /// backslash and the consumed characters to `buf` verbatim.
    fn escape_or_line_continuation(&mut self, buf: &mut Vec<char>) -> (r: Result<(), LexError>)
        requires
            old(self).wf(),
        ensures
            final(self).wf(),
            final(self).input() == old(self).input(),
            old(self).cursor() >= old(self).input().len() ==> r == Err::<(), LexError>(
                LexError::UnexpectedEndOfInput(
                    loc_at(old(self).input(), old(self).input().len() as int),
                ),
            ) && final(self).cursor() == old(self).input().len(),
            old(self).cursor() < old(self).input().len() ==> {
                &&& r is Ok
                &&& final(self).cursor() == (if old(self).input()[old(self).cursor()]
                    == '\u{000D}' && old(self).cursor() + 1 < old(self).input().len() && old(
                    self,
                ).input()[old(self).cursor() + 1] == '\u{000A}' {
                    old(self).cursor() + 2
                } else {
                    old(self).cursor() + 1
                })
                &&& final(buf)@ == old(buf)@ + seq!['\\'] + old(self).input().subrange(
                    old(self).cursor(),
                    final(self).cursor(),
                )
            },
    {
        let ghost s = self.stream@;
        let ghost i0 = self.pos as int;
        match self.next_char() {
            Some(c) => {
                buf.push('\\');
                buf.push(c);
                if c == '\u{000D}' {
                    match self.peek() {
                        Some(n) => {
                            if n == '\u{000A}' {
                                buf.push(n);
                                self.skip();
                                proof {
                                    assert(seq!['\\'] + s.subrange(i0, i0 + 2) =~= seq![
                                        '\\',
                                        s[i0],
                                        s[i0 + 1],
                                    ]);
                                }
                                return Ok(());
                            }
                        },
                        None => {},
                    }
                }
                proof {
                    assert(seq!['\\'] + s.subrange(i0, i0 + 1) =~= seq!['\\', s[i0]]);
                }
                Ok(())
            },
            None => Err(self.unexpected_eof()),
        }
    }

    /// Scans a string literal whose opening quote stands at the cursor.  The
    /// token's text is the source text between the quotes, escape sequences
    /// preserved as written.
    fn string(&mut self, quote: QuoteStyle) -> (r: Result<TokenType, LexError>)
        requires
            old(self).wf(),
            old(self).cursor() < old(self).input().len(),
            old(self).input()[old(self).cursor()] == quote_char(quote),
        ensures
            final(self).wf(),
            final(self).input() == old(self).input(),
            match string_body_end(old(self).input(), old(self).cursor() + 1, quote) {
                PartStep::Done { end } => {
                    &&& r matches Ok(t)
                    &&& t matches TokenType::String(x, q2)
                    &&& q2 == quote
                    &&& x@ == old(self).input().subrange(old(self).cursor() + 1, end - 1)
                    &&& final(self).cursor() == end
                },
                PartStep::ErrChar { at, c } => r == Err::<TokenType, LexError>(
                    LexError::UnexpectedCharacter(loc_at(old(self).input(), at), c),
                ) && final(self).cursor() == at,
                PartStep::ErrEof => r == Err::<TokenType, LexError>(
                    LexError::UnexpectedEndOfInput(
                        loc_at(old(self).input(), old(self).input().len() as int),
                    ),
                ) && final(self).cursor() == old(self).input().len(),
            },
    {
        let ghost s = self.stream@;
        let ghost i0 = self.pos as int;
        proof {
            lemma_string_body_end(s, i0 + 1, quote);
        }
        let mut buf: Vec<char> = Vec::new();
        self.skip();
        proof {
            assert(buf@ =~= s.subrange(i0 + 1, i0 + 1));
        }
        loop
            invariant_except_break
                string_body_end(s, self.pos as int, quote) == string_body_end(s, i0 + 1, quote),
                buf@ == s.subrange(i0 + 1, self.pos as int),
            invariant
                self.wf(),
                self.stream@ == s,
                s == old(self).input(),
                i0 == old(self).cursor(),
                0 <= i0,
                i0 + 1 <= self.pos as int <= s.len(),
            ensures
                self.wf(),
                self.stream@ == s,
                0 <= i0,
                string_body_end(s, i0 + 1, quote) matches PartStep::Done { end } && self.pos
                    as int == end && buf@ == s.subrange(i0 + 1, end - 1),
            decreases s.len() - self.pos,
        {
            let ghost p = self.pos as int;
            match self.next_char() {
                Some(c) => {
                    if (c == '"' && quote == QuoteStyle::Double) || (c == '\'' && quote
                        == QuoteStyle::Single) {
                        break ;
                    } else if c == '\\' {
                        match self.escape_or_line_continuation(&mut buf) {
                            Ok(_u) => {
                                proof {
                                    assert(s.subrange(i0 + 1, p) + seq!['\\'] + s.subrange(
                                        p + 1,
                                        self.pos as int,
                                    ) =~= s.subrange(i0 + 1, self.pos as int));
                                }
                            },
                            Err(e) => {
                                return Err(e);
                            },
                        }
                    } else if is_line_terminator(c) {
                        return Err(self.unexpected_char(c));
                    } else {
                        buf.push(c);
                        proof {
                            assert(s.subrange(i0 + 1, p + 1) =~= s.subrange(i0 + 1, p)
                                + seq![s[p]]);
                        }
                    }
                },
                None => {
                    return Err(self.unexpected_eof());
                },
            }
        }
        Ok(TokenType::String(chars_to_string(&buf), quote))
    }
}

} // verus!


verus! {

impl Lexer {
    /// Scans the fractional part of a numeric literal, with the `.` at the
    /// cursor: the `.` must be followed by at least one digit.  The `.` and
    /// the digits are appended to `buf` verbatim.
    fn decimal(&mut self, buf: &mut Vec<char>) -> (r: Result<(), LexError>)
        requires
            old(self).wf(),
            old(self).cursor() < old(self).input().len(),
            old(self).input()[old(self).cursor()] == '.',
        ensures
            final(self).wf(),
            final(self).input() == old(self).input(),
            match dec_step(old(self).input(), old(self).cursor()) {
                PartStep::Done { end } => {
                    &&& r is Ok
                    &&& old(self).cursor() < end <= old(self).input().len()
                    &&& final(self).cursor() == end
                    &&& final(buf)@ == old(buf)@ + old(self).input().subrange(
                        old(self).cursor(),
                        end,
                    )
                },
                PartStep::ErrChar { at, c } => r == Err::<(), LexError>(
                    LexError::UnexpectedCharacter(loc_at(old(self).input(), at), c),
                ) && final(self).cursor() == at,
                PartStep::ErrEof => r == Err::<(), LexError>(
                    LexError::UnexpectedEndOfInput(
                        loc_at(old(self).input(), old(self).input().len() as int),
                    ),
                ) && final(self).cursor() == old(self).input().len(),
            },
    {
        let ghost s = self.stream@;
        let ghost i0 = self.pos as int;
        self.skip();
        match self.peek() {
            Some(c) => {
                if is_digit(c) {
                    buf.push('.');
                    buf.push(c);
                    self.skip();
                    let ghost bmid = buf@;
                    self.push_while_digit(buf);
                    proof {
                        lemma_digit_end(s, i0 + 2);
                        assert(digit_end(s, i0 + 1) == digit_end(s, i0 + 2));
                        assert(buf@ =~= old(buf)@ + s.subrange(i0, digit_end(s, i0 + 1))) by {
                            assert(bmid =~= old(buf)@ + seq![s[i0], s[i0 + 1]]);
                            assert(buf@ == bmid + s.subrange(i0 + 2, digit_end(s, i0 + 2)));
                            assert(s.subrange(i0, digit_end(s, i0 + 1)) =~= seq![
                                s[i0],
                                s[i0 + 1],
                            ] + s.subrange(i0 + 2, digit_end(s, i0 + 2)));
                        }
                    }
                    Ok(())
                } else {
                    Err(self.unexpected_char(c))
                }
            },
            None => Err(self.unexpected_eof()),
        }
    }

    /// Scans the exponent part of a numeric literal, with the `e` or `E` at
    /// the cursor: an optional sign, then at least one digit.  The consumed
    /// characters are appended to `buf` verbatim.
    fn exponent(&mut self, buf: &mut Vec<char>) -> (r: Result<(), LexError>)
        requires
            old(self).wf(),
            old(self).cursor() < old(self).input().len(),
            old(self).input()[old(self).cursor()] == 'e' || old(self).input()[old(self).cursor()]
                == 'E',
        ensures
            final(self).wf(),
            final(self).input() == old(self).input(),
            match exp_step(old(self).input(), old(self).cursor()) {
                PartStep::Done { end } => {
                    &&& r is Ok
                    &&& old(self).cursor() < end <= old(self).input().len()
                    &&& final(self).cursor() == end
                    &&& final(buf)@ == old(buf)@ + old(self).input().subrange(
                        old(self).cursor(),
                        end,
                    )
                },
                PartStep::ErrChar { at, c } => r == Err::<(), LexError>(
                    LexError::UnexpectedCharacter(loc_at(old(self).input(), at), c),
                ) && final(self).cursor() == at,
                PartStep::ErrEof => r == Err::<(), LexError>(
                    LexError::UnexpectedEndOfInput(
                        loc_at(old(self).input(), old(self).input().len() as int),
                    ),
                ) && final(self).cursor() == old(self).input().len(),
            },
    {
        let ghost s = self.stream@;
        let ghost i0 = self.pos as int;
        let mut sign = false;
        match self.next_char() {
            Some(e0) => {
                buf.push(e0);
            },
            None => {},
        }
        match self.peek() {
            Some(c) => {
                if c == '+' || c == '-' {
                    buf.push(c);
                    self.skip();
                    sign = true;
                }
            },
            None => {},
        }
        let ghost j = if sign {
            i0 + 2
        } else {
            i0 + 1
        };
        let ghost bmid = buf@;
        proof {
            assert(bmid =~= old(buf)@ + s.subrange(i0, j));
        }
        match self.next_char() {
            Some(d) => {
                if is_digit(d) {
                    buf.push(d);
                    self.push_while_digit(buf);
                    proof {
                        lemma_digit_end(s, j + 1);
                        assert(digit_end(s, j) == digit_end(s, j + 1));
                        assert(buf@ =~= old(buf)@ + s.subrange(i0, digit_end(s, j))) by {
                            assert(buf@ == bmid.push(s[j]) + s.subrange(
                                j + 1,
                                digit_end(s, j + 1),
                            ));
                            assert(s.subrange(i0, digit_end(s, j)) =~= s.subrange(i0, j)
                                + seq![s[j]] + s.subrange(j + 1, digit_end(s, j + 1)));
                        }
                    }
                    Ok(())
                } else {
                    Err(self.unexpected_char(d))
                }
            },
            None => Err(self.unexpected_eof()),
        }
    }

    /// Scans a whole numeric literal: an optional integer digit run, an
    /// optional fractional part, an optional exponent part.  The cursor must
    /// stand on a digit, or on a `.` immediately followed by a digit.
    fn digit(&mut self) -> (r: Result<TokenType, LexError>)
        requires
            old(self).wf(),
            old(self).cursor() < old(self).input().len(),
            is_digit_char(old(self).input()[old(self).cursor()]) || (old(self).input()[old(
                self,
            ).cursor()] == '.' && old(self).cursor() + 1 < old(self).input().len()
                && is_digit_char(old(self).input()[old(self).cursor() + 1])),
        ensures
            final(self).wf(),
            final(self).input() == old(self).input(),
            match number_step(old(self).input(), old(self).cursor()) {
                PartStep::Done { end } => {
                    &&& r matches Ok(t)
                    &&& t matches TokenType::Number(x)
                    &&& x@ == old(self).input().subrange(old(self).cursor(), end)
                    &&& final(self).cursor() == end
                },
                PartStep::ErrChar { at, c } => r == Err::<TokenType, LexError>(
                    LexError::UnexpectedCharacter(loc_at(old(self).input(), at), c),
                ) && final(self).cursor() == at,
                PartStep::ErrEof => r == Err::<TokenType, LexError>(
                    LexError::UnexpectedEndOfInput(
                        loc_at(old(self).input(), old(self).input().len() as int),
                    ),
                ) && final(self).cursor() == old(self).input().len(),
            },
    {
        let ghost s = self.stream@;
        let ghost i0 = self.pos as int;
        proof {
            lemma_digit_end(s, i0);
        }
        let mut buf: Vec<char> = Vec::new();
        self.push_while_digit(&mut buf);
        let ghost ie = digit_end(s, i0);
        proof {
            assert(buf@ =~= s.subrange(i0, ie));
        }
        let mut has_dot = false;
        match self.peek() {
            Some(c) => {
                if c == '.' {
                    has_dot = true;
                }
            },
            None => {},
        }
        if has_dot {
            let ghost bmid = buf@;
            match self.decimal(&mut buf) {
                Ok(_u) => {
                    proof {
                        assert(buf@ =~= s.subrange(i0, self.pos as int)) by {
                            assert(buf@ == bmid + s.subrange(ie, self.pos as int));
                            assert(s.subrange(i0, self.pos as int) =~= s.subrange(i0, ie)
                                + s.subrange(ie, self.pos as int));
                        }
                    }
                },
                Err(e) => {
                    return Err(e);
                },
            }
        }
        let ghost fe = self.pos as int;
        let mut has_exp = false;
        match self.peek() {
            Some(c) => {
                if c == 'e' || c == 'E' {
                    has_exp = true;
                }
            },
            None => {},
        }
        if has_exp {
            let ghost bmid = buf@;
            match self.exponent(&mut buf) {
                Ok(_u) => {
                    proof {
                        assert(buf@ =~= s.subrange(i0, self.pos as int)) by {
                            assert(buf@ == bmid + s.subrange(fe, self.pos as int));
                            assert(s.subrange(i0, self.pos as int) =~= s.subrange(i0, fe)
                                + s.subrange(fe, self.pos as int));
                        }
                    }
                },
                Err(e) => {
                    return Err(e);
                },
            }
        }
        Ok(TokenType::Number(chars_to_string(&buf)))
    }
}

} // verus!

verus! {

impl Lexer {
    /// Scans the `=` family under longest match: `=>`, `===`, `==`, `=`.
    fn equal(&mut self) -> (t: TokenType)
        requires
            old(self).wf(),
            old(self).cursor() < old(self).input().len(),
            old(self).input()[old(self).cursor()] == '=',
        ensures
            final(self).wf(),
            final(self).input() == old(self).input(),
            t == equal_step(old(self).input(), old(self).cursor()).kind,
            final(self).cursor() == equal_step(old(self).input(), old(self).cursor()).end,
    {
        self.skip();
        match self.peek() {
            Some('>') => {
                self.skip();
                TokenType::Arrow
            },
            Some('=') => {
                self.skip();
                match self.peek() {
                    Some('=') => {
                        self.skip();
                        TokenType::TripleEquals
                    },
                    _ => TokenType::DoubleEquals,
                }
            },
            _ => TokenType::Equals,
        }
    }

    /// Scans the `!` family under longest match: `!==`, `!=`, `!`.
    fn bang(&mut self) -> (t: TokenType)
        requires
            old(self).wf(),
            old(self).cursor() < old(self).input().len(),
            old(self).input()[old(self).cursor()] == '!',
        ensures
            final(self).wf(),
            final(self).input() == old(self).input(),
            t == bang_step(old(self).input(), old(self).cursor()).kind,
            final(self).cursor() == bang_step(old(self).input(), old(self).cursor()).end,
    {
        self.skip();
        match self.peek() {
            Some('=') => {
                self.skip();
                match self.peek() {
                    Some('=') => {
                        self.skip();
                        TokenType::NotTripleEquals
                    },
                    _ => TokenType::NotEquals,
                }
            },
            _ => TokenType::Bang,
        }
    }

    /// Scans the `&` family under longest match: `&&`, `&=`, `&`.
    fn ampersand(&mut self) -> (t: TokenType)
        requires
            old(self).wf(),
            old(self).cursor() < old(self).input().len(),
            old(self).input()[old(self).cursor()] == '&',
        ensures
            final(self).wf(),
            final(self).input() == old(self).input(),
            t == ampersand_step(old(self).input(), old(self).cursor()).kind,
            final(self).cursor() == ampersand_step(old(self).input(), old(self).cursor()).end,
    {
        self.skip();
        match self.peek() {
            Some('&') => {
                self.skip();
                TokenType::LogicalAnd
            },
            Some('=') => {
                self.skip();
                TokenType::BinaryAndEquals
            },
            _ => TokenType::BinaryAnd,
        }
    }

    /// Scans the `|` family under longest match: `||`, `|=`, `|`.
    fn pipe(&mut self) -> (t: TokenType)
        requires
            old(self).wf(),
            old(self).cursor() < old(self).input().len(),
            old(self).input()[old(self).cursor()] == '|',
        ensures
            final(self).wf(),
            final(self).input() == old(self).input(),
            t == pipe_step(old(self).input(), old(self).cursor()).kind,
            final(self).cursor() == pipe_step(old(self).input(), old(self).cursor()).end,
    {
        self.skip();
        match self.peek() {
            Some('|') => {
                self.skip();
                TokenType::LogicalOr
            },
            Some('=') => {
                self.skip();
                TokenType::BinaryOrEquals
            },
            _ => TokenType::BinaryOr,
        }
    }

    /// Scans the `^` family under longest match: `^=`, `^`.
    fn caret(&mut self) -> (t: TokenType)
        requires
            old(self).wf(),
            old(self).cursor() < old(self).input().len(),
            old(self).input()[old(self).cursor()] == '^',
        ensures
            final(self).wf(),
            final(self).input() == old(self).input(),
            t == caret_step(old(self).input(), old(self).cursor()).kind,
            final(self).cursor() == caret_step(old(self).input(), old(self).cursor()).end,
    {
        self.skip();
        match self.peek() {
            Some('=') => {
                self.skip();
                TokenType::BinaryXorEquals
            },
            _ => TokenType::BinaryXor,
        }
    }

    /// Scans the `-` family under longest match: `--`, `-=`, `-`.
    fn minus(&mut self) -> (t: TokenType)
        requires
            old(self).wf(),
            old(self).cursor() < old(self).input().len(),
            old(self).input()[old(self).cursor()] == '-',
        ensures
            final(self).wf(),
            final(self).input() == old(self).input(),
            t == minus_step(old(self).input(), old(self).cursor()).kind,
            final(self).cursor() == minus_step(old(self).input(), old(self).cursor()).end,
    {
        self.skip();
        match self.peek() {
            Some('-') => {
                self.skip();
                TokenType::Decrement
            },
            Some('=') => {
                self.skip();
                TokenType::MinusEquals
            },
            _ => TokenType::Minus,
        }
    }

    /// Scans the `+` family under longest match: `++`, `+=`, `+`.
    fn plus(&mut self) -> (t: TokenType)
        requires
            old(self).wf(),
            old(self).cursor() < old(self).input().len(),
            old(self).input()[old(self).cursor()] == '+',
        ensures
            final(self).wf(),
            final(self).input() == old(self).input(),
            t == plus_step(old(self).input(), old(self).cursor()).kind,
            final(self).cursor() == plus_step(old(self).input(), old(self).cursor()).end,
    {
        self.skip();
        match self.peek() {
            Some('+') => {
                self.skip();
                TokenType::Increment
            },
            Some('=') => {
                self.skip();
                TokenType::PlusEquals
            },
            _ => TokenType::Plus,
        }
    }

    /// Scans the `>` family under longest match: `>>>=`, `>>>`, `>>=`, `>>`,
    /// `>=`, `>`.
    fn gt(&mut self) -> (t: TokenType)
        requires
            old(self).wf(),
            old(self).cursor() < old(self).input().len(),
            old(self).input()[old(self).cursor()] == '>',
        ensures
            final(self).wf(),
            final(self).input() == old(self).input(),
            t == gt_step(old(self).input(), old(self).cursor()).kind,
            final(self).cursor() == gt_step(old(self).input(), old(self).cursor()).end,
    {
        self.skip();
        match self.peek() {
            Some('=') => {
                self.skip();
                TokenType::GreaterThanEqualTo
            },
            Some('>') => {
                self.skip();
                match self.peek() {
                    Some('=') => {
                        self.skip();
                        TokenType::RightShiftEquals
                    },
                    Some('>') => {
                        self.skip();
                        match self.peek() {
                            Some('=') => {
                                self.skip();
                                TokenType::TripleRightShiftEquals
                            },
                            _ => TokenType::TripleRightShift,
                        }
                    },
                    _ => TokenType::RightShift,
                }
            },
            _ => TokenType::GreaterThan,
        }
    }

    /// Scans the `<` family under longest match: `<<=`, `<<`, `<=`, `<`.
    fn lt(&mut self) -> (t: TokenType)
        requires
            old(self).wf(),
            old(self).cursor() < old(self).input().len(),
            old(self).input()[old(self).cursor()] == '<',
        ensures
            final(self).wf(),
            final(self).input() == old(self).input(),
            t == lt_step(old(self).input(), old(self).cursor()).kind,
            final(self).cursor() == lt_step(old(self).input(), old(self).cursor()).end,
    {
        self.skip();
        match self.peek() {
            Some('<') => {
                self.skip();
                match self.peek() {
                    Some('=') => {
                        self.skip();
                        TokenType::LeftShiftEquals
                    },
                    _ => TokenType::LeftShift,
                }
            },
            Some('=') => {
                self.skip();
                TokenType::LessThanEqualTo
            },
            _ => TokenType::LessThan,
        }
    }

    /// Scans the `%` family under longest match: `%=`, `%`.
    fn percent(&mut self) -> (t: TokenType)
        requires
            old(self).wf(),
            old(self).cursor() < old(self).input().len(),
            old(self).input()[old(self).cursor()] == '%',
        ensures
            final(self).wf(),
            final(self).input() == old(self).input(),
            t == percent_step(old(self).input(), old(self).cursor()).kind,
            final(self).cursor() == percent_step(old(self).input(), old(self).cursor()).end,
    {
        self.skip();
        match self.peek() {
            Some('=') => {
                self.skip();
                TokenType::PercentEquals
            },
            _ => TokenType::Percent,
        }
    }

    /// Scans the `*` family under longest match: `**=`, `**`, `*=`, `*`.
    fn asterisk(&mut self) -> (t: TokenType)
        requires
            old(self).wf(),
            old(self).cursor() < old(self).input().len(),
            old(self).input()[old(self).cursor()] == '*',
        ensures
            final(self).wf(),
            final(self).input() == old(self).input(),
            t == asterisk_step(old(self).input(), old(self).cursor()).kind,
            final(self).cursor() == asterisk_step(old(self).input(), old(self).cursor()).end,
    {
        self.skip();
        match self.peek() {
            Some('*') => {
                self.skip();
                match self.peek() {
                    Some('=') => {
                        self.skip();
                        TokenType::PowerEquals
                    },
                    _ => TokenType::Power,
                }
            },
            Some('=') => {
                self.skip();
                TokenType::TimesEquals
            },
            _ => TokenType::Times,
        }
    }
}

} // verus!

verus! {

impl Lexer {
    /// The character after the next one, if any, without consuming anything.
    fn peek_ahead(&self) -> (r: Option<char>)
        requires
            self.wf(),
        ensures
            r == (if self.cursor() + 1 < self.input().len() {
                Some(self.input()[self.cursor() + 1])
            } else {
                None::<char>
            }),
    {
        if self.pos < self.stream.len() && self.pos + 1 < self.stream.len() {
            Some(self.stream[self.pos + 1])
        } else {
            None
        }
    }

    /// Scans the `/` family: `//` and `/*` start comments, `/=` is the
    /// compound division assignment, anything else leaves plain division.
    fn slash(&mut self, loc: Location) -> (r: Result<Token, LexError>)
        requires
            old(self).wf(),
            old(self).cursor() < old(self).input().len(),
            old(self).input()[old(self).cursor()] == '/',
            loc == loc_at(old(self).input(), old(self).cursor()),
        ensures
            final(self).wf(),
            final(self).input() == old(self).input(),
            match slash_step(old(self).input(), old(self).cursor()) {
                ScanStep::Tok { kind, end } => {
                    &&& r matches Ok(t)
                    &&& t.typ@ == kind
                    &&& t.line == loc.line
                    &&& t.column == loc.column
                    &&& final(self).cursor() == end
                },
                ScanStep::ErrChar { .. } => false,
                ScanStep::ErrEof => r == Err::<Token, LexError>(
                    LexError::UnexpectedEndOfInput(
                        loc_at(old(self).input(), old(self).input().len() as int),
                    ),
                ) && final(self).cursor() == old(self).input().len(),
                ScanStep::End => false,
            },
    {
        let ghost s = self.stream@;
        let ghost i0 = self.pos as int;
        self.skip();
        match self.peek() {
            Some('/') => self.comment(loc, CommentStyle::SingleLine),
            Some('*') => {
                proof {
                    lemma_block_end(s, i0 + 2);
                }
                self.comment(loc, CommentStyle::MultiLine)
            },
            Some('=') => Ok(self.scalar(loc, TokenType::DivEqual)),
            _ => Ok(Token::new(loc, TokenType::Div)),
        }
    }

    /// Scans the `.` family: `...` is the ellipsis (two periods alone are an
    /// error), a following digit starts a numeric literal with a fractional
    /// part, anything else leaves a plain period.
    fn period(&mut self, loc: Location) -> (r: Result<Token, LexError>)
        requires
            old(self).wf(),
            old(self).cursor() < old(self).input().len(),
            old(self).input()[old(self).cursor()] == '.',
            loc == loc_at(old(self).input(), old(self).cursor()),
        ensures
            final(self).wf(),
            final(self).input() == old(self).input(),
            match period_step(old(self).input(), old(self).cursor()) {
                ScanStep::Tok { kind, end } => {
                    &&& r matches Ok(t)
                    &&& t.typ@ == kind
                    &&& t.line == loc.line
                    &&& t.column == loc.column
                    &&& final(self).cursor() == end
                },
                ScanStep::ErrChar { at, c } => r == Err::<Token, LexError>(
                    LexError::UnexpectedCharacter(loc_at(old(self).input(), at), c),
                ) && final(self).cursor() == at,
                ScanStep::ErrEof => r == Err::<Token, LexError>(
                    LexError::UnexpectedEndOfInput(
                        loc_at(old(self).input(), old(self).input().len() as int),
                    ),
                ) && final(self).cursor() == old(self).input().len(),
                ScanStep::End => false,
            },
    {
        match self.peek_ahead() {
            Some(c) => {
                if c == '.' {
                    self.skip();
                    self.skip();
                    match self.next_char() {
                        Some(c2) => {
                            if c2 == '.' {
                                Ok(Token::new(loc, TokenType::Ellipsis))
                            } else {
                                Err(self.unexpected_char(c2))
                            }
                        },
                        None => Err(self.unexpected_eof()),
                    }
                } else if is_digit(c) {
                    match self.digit() {
                        Ok(tt) => Ok(Token::new(loc, tt)),
                        Err(e) => Err(e),
                    }
                } else {
                    self.skip();
                    Ok(Token::new(loc, TokenType::Period))
                }
            },
            None => {
                self.skip();
                Ok(Token::new(loc, TokenType::Period))
            },
        }
    }

    /// Produces the next token of the input, the error that stops the scan,
    /// or nothing once the input is exhausted.  The token's position is the
    /// position of its first character, its text is exactly the consumed
    /// slice of the input, and the outcome is precisely the one dispatch step
    /// of the mathematical scanner at the cursor.  An error is terminal:
    /// every later call returns nothing and leaves the scanner unchanged.
    pub fn next_token(&mut self) -> (r: Option<Result<Token, LexError>>)
        requires
            old(self).wf(),
        ensures
            final(self).wf(),
            final(self).input() == old(self).input(),
            old(self).cursor() <= final(self).cursor() <= old(self).input().len(),
            old(self).has_failed() ==> r is None && *final(self) == *old(self),
            !old(self).has_failed() ==> match spec_next(old(self).input(), old(self).cursor()) {
                ScanStep::End => r is None && final(self).cursor() == old(self).cursor()
                    && !final(self).has_failed(),
                ScanStep::Tok { kind, end } => {
                    &&& r matches Some(rr)
                    &&& rr matches Ok(t)
                    &&& t.typ@ == kind
                    &&& t.line as int == line_at(old(self).input().take(old(self).cursor()))
                    &&& t.column as int == col_at(old(self).input().take(old(self).cursor()))
                    &&& final(self).cursor() == end
                    &&& old(self).cursor() < end
                    &&& !final(self).has_failed()
                },
                ScanStep::ErrChar { at, c } => {
                    &&& r matches Some(rr)
                    &&& rr == Err::<Token, LexError>(
                        LexError::UnexpectedCharacter(loc_at(old(self).input(), at), c),
                    )
                    &&& final(self).cursor() == at
                    &&& final(self).has_failed()
                },
                ScanStep::ErrEof => {
                    &&& r matches Some(rr)
                    &&& rr == Err::<Token, LexError>(
                        LexError::UnexpectedEndOfInput(
                            loc_at(old(self).input(), old(self).input().len() as int),
                        ),
                    )
                    &&& final(self).cursor() == old(self).input().len()
                    &&& final(self).has_failed()
                },
            },
            (match r {
                Some(Ok(t)) => crate::token::token_raw(t.typ) == old(self).input().subrange(
                    old(self).cursor(),
                    final(self).cursor(),
                ),
                _ => true,
            }),
    {
        if self.failed {
            return None;
        }
        let ghost s = self.stream@;
        let ghost i0 = self.pos as int;
        proof {
            lemma_next_raw(s, i0);
        }
        let loc = self.get_location();
        let r = match self.peek() {
            None => None,
            Some(c) => {
                if is_ws(c) {
                    let tt = self.ws();
                    Some(Ok(Token::new(loc, tt)))
                } else if is_digit(c) {
                    match self.digit() {
                        Ok(tt) => Some(Ok(Token::new(loc, tt))),
                        Err(e) => Some(Err(e)),
                    }
                } else if c == '/' {
                    match self.slash(loc) {
                        Ok(t) => Some(Ok(t)),
                        Err(e) => Some(Err(e)),
                    }
                } else if c == '\'' {
                    match self.string(QuoteStyle::Single) {
                        Ok(tt) => Some(Ok(Token::new(loc, tt))),
                        Err(e) => Some(Err(e)),
                    }
                } else if c == '"' {
                    match self.string(QuoteStyle::Double) {
                        Ok(tt) => Some(Ok(Token::new(loc, tt))),
                        Err(e) => Some(Err(e)),
                    }
                } else if c == '{' {
                    Some(Ok(self.scalar(loc, TokenType::LeftBrace)))
                } else if c == '}' {
                    Some(Ok(self.scalar(loc, TokenType::RightBrace)))
                } else if c == '=' {
                    let tt = self.equal();
                    Some(Ok(Token::new(loc, tt)))
                } else if c == '!' {
                    let tt = self.bang();
                    Some(Ok(Token::new(loc, tt)))
                } else if c == '&' {
                    let tt = self.ampersand();
                    Some(Ok(Token::new(loc, tt)))
                } else if c == '|' {
                    let tt = self.pipe();
                    Some(Ok(Token::new(loc, tt)))
                } else if c == '^' {
                    let tt = self.caret();
                    Some(Ok(Token::new(loc, tt)))
                } else if c == '(' {
                    Some(Ok(self.scalar(loc, TokenType::LeftParen)))
                } else if c == ')' {
                    Some(Ok(self.scalar(loc, TokenType::RightParen)))
                } else if c == ']' {
                    Some(Ok(self.scalar(loc, TokenType::RightBracket)))
                } else if c == '[' {
                    Some(Ok(self.scalar(loc, TokenType::LeftBracket)))
                } else if c == ':' {
                    Some(Ok(self.scalar(loc, TokenType::Colon)))
                } else if c == ',' {
                    Some(Ok(self.scalar(loc, TokenType::Comma)))
                } else if c == '+' {
                    let tt = self.plus();
                    Some(Ok(Token::new(loc, tt)))
                } else if c == '-' {
                    let tt = self.minus();
                    Some(Ok(Token::new(loc, tt)))
                } else if c == '>' {
                    let tt = self.gt();
                    Some(Ok(Token::new(loc, tt)))
                } else if c == '<' {
                    let tt = self.lt();
                    Some(Ok(Token::new(loc, tt)))
                } else if c == '.' {
                    match self.period(loc) {
                        Ok(t) => Some(Ok(t)),
                        Err(e) => Some(Err(e)),
                    }
                } else if c == '%' {
                    let tt = self.percent();
                    Some(Ok(Token::new(loc, tt)))
                } else if c == '*' {
                    let tt = self.asterisk();
                    Some(Ok(Token::new(loc, tt)))
                } else if c == '~' {
                    Some(Ok(self.scalar(loc, TokenType::Tilde)))
                } else if c == ';' {
                    Some(Ok(self.scalar(loc, TokenType::Semicolon)))
                } else if c == '?' {
                    Some(Ok(self.scalar(loc, TokenType::Question)))
                } else {
                    Some(Err(self.unexpected_char(c)))
                }
            },
        };
        self.failed = match &r {
            Some(Err(_)) => true,
            _ => false,
        };
        r
    }
}

} // verus!

verus! {

/// Scans a whole input into its token sequence, or the error that stops the
/// scan.  The result is exactly the token sequence of the mathematical
/// scanner; on success, concatenating the tokens' raw text reproduces the
/// input, and token positions are non-decreasing in (line, column) order.
#[verifier::loop_isolation(false)]
pub fn tokenize(stream: Vec<char>) -> (r: Result<Vec<Token>, LexError>)
    requires
        stream@.len() < 0xFFFF_FFFFusize,
    ensures
        (match crate::laws::spec_tokens_from(stream@, 0) {
            crate::laws::TokensStep::Toks(tvs) => r matches Ok(toks) && toks@.map_values(
                |t: Token| t@,
            ) == tvs,
            crate::laws::TokensStep::Fail(e) => r matches Err(e2) && e2 == e,
        }),
        (match r {
            Ok(toks) => crate::laws::raws_concat(toks@.map_values(|t: Token| t@)) == stream@
                && (forall|k: int, l: int|
                0 <= k <= l < toks@.len() ==> crate::position::pos_le(
                    toks@[k]@.line,
                    toks@[k]@.column,
                    toks@[l]@.line,
                    toks@[l]@.column,
                )),
            Err(_) => true,
        }),
{
    let ghost s = stream@;
    let mut lx = Lexer::new(stream);
    let mut toks: Vec<Token> = Vec::new();
    proof {
        assert(toks@.map_values(|t: Token| t@) =~= Seq::<crate::token::TokenView>::empty());
        assert(s.take(0) =~= Seq::<char>::empty());
    }
    loop
        invariant
            lx.wf(),
            lx.input() == s,
            !lx.has_failed(),
            0 <= lx.cursor() <= s.len(),
            (match crate::laws::spec_tokens_from(s, lx.cursor()) {
                crate::laws::TokensStep::Toks(rest) => crate::laws::spec_tokens_from(s, 0)
                    == crate::laws::TokensStep::Toks(toks@.map_values(|t: Token| t@) + rest),
                crate::laws::TokensStep::Fail(e) => crate::laws::spec_tokens_from(s, 0)
                    == crate::laws::TokensStep::Fail(e),
            }),
            crate::laws::raws_concat(toks@.map_values(|t: Token| t@)) == s.take(lx.cursor()),
            forall|k: int, l: int|
                0 <= k <= l < toks@.len() ==> crate::position::pos_le(
                    toks@[k]@.line,
                    toks@[k]@.column,
                    toks@[l]@.line,
                    toks@[l]@.column,
                ),
            forall|k: int|
                0 <= k < toks@.len() ==> crate::position::pos_le(
                    toks@[k]@.line,
                    toks@[k]@.column,
                    line_at(s.take(lx.cursor())),
                    col_at(s.take(lx.cursor())),
                ),
        decreases s.len() - lx.cursor(),
    {
        let ghost p = lx.cursor();
        let ghost vs = toks@.map_values(|t: Token| t@);
        match lx.next_token() {
            None => {
                proof {
                    assert(vs + Seq::<crate::token::TokenView>::empty() =~= vs);
                    assert(s.take(s.len() as int) =~= s);
                }
                return Ok(toks);
            },
            Some(Err(e)) => {
                return Err(e);
            },
            Some(Ok(t)) => {
                toks.push(t);
                proof {
                    let vs2 = toks@.map_values(|tk: Token| tk@);
                    assert(vs2 =~= vs.push(t@));
                    let end = lx.cursor();
                    match spec_next(s, p) {
                        ScanStep::Tok { kind, end: e2 } => {
                            assert(e2 == end);
                            assert((TokenView {
                                line: line_at(s.take(p)),
                                column: col_at(s.take(p)),
                                kind,
                            }) == t@);
                            match crate::laws::spec_tokens_from(s, end) {
                                crate::laws::TokensStep::Toks(rest2) => {
                                    assert(crate::laws::spec_tokens_from(s, p)
                                        == crate::laws::TokensStep::Toks(seq![t@] + rest2));
                                    assert(vs.push(t@) + rest2 =~= vs + (seq![t@] + rest2));
                                },
                                crate::laws::TokensStep::Fail(_e3) => {},
                            }
                        },
                        _ => {
                            assert(false);
                        },
                    }
                    assert(vs2.drop_last() =~= vs);
                    assert(vs2.last() == t@);
                    assert(crate::laws::raws_concat(vs2) == s.take(p) + crate::token::kind_raw(
                        t@.kind,
                    ));
                    assert(s.take(p) + s.subrange(p, end) =~= s.take(end));
                    assert(crate::token::token_raw(t.typ) == crate::token::kind_raw(t@.kind));
                    crate::position::lemma_position_monotonic(s, p, end);
                }
            },
        }
    }
}

} // verus!
