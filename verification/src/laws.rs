//! The token sequence of a whole input, and the laws the scanner obeys:
//! determinism, the lossless round trip, longest match for the operator
//! families, and position monotonicity.

use vstd::prelude::*;

use crate::lexer::LexError;
use crate::position::{col_at, line_at, loc_at};
use crate::scan::{spec_next, ScanStep};
use crate::token::{kind_raw, TokenKind, TokenView};

verus! {

/// The outcome of scanning a whole input: its full token sequence, or the
/// error that stops the scan.
pub enum TokensStep {
    Toks(Seq<TokenView>),
    Fail(LexError),
}

/// The token sequence that scanning produces from position `i` to the end of
/// the input: one dispatch step at a time, stopping at the first error.  This
/// pins the scanner's entire output as a function of the input alone.
pub open spec fn spec_tokens_from(s: Seq<char>, i: int) -> TokensStep
    decreases s.len() - i
        when 0 <= i <= s.len()
{
    match spec_next(s, i) {
        ScanStep::End => TokensStep::Toks(Seq::empty()),
        ScanStep::Tok { kind, end } => if i < end <= s.len() {
            match spec_tokens_from(s, end) {
                TokensStep::Toks(rest) => TokensStep::Toks(
                    seq![
                        TokenView { line: line_at(s.take(i)), column: col_at(s.take(i)), kind },
                    ] + rest,
                ),
                TokensStep::Fail(e) => TokensStep::Fail(e),
            }
        } else {
            TokensStep::Toks(Seq::empty())
        },
        ScanStep::ErrChar { at, c } => TokensStep::Fail(
            LexError::UnexpectedCharacter(loc_at(s, at), c),
        ),
        ScanStep::ErrEof => TokensStep::Fail(
            LexError::UnexpectedEndOfInput(loc_at(s, s.len() as int)),
        ),
    }
}

/// The concatenation of the raw texts of a token sequence, in order.
pub open spec fn raws_concat(ts: Seq<TokenView>) -> Seq<char>
    decreases ts.len(),
{
    if ts.len() == 0 {
        Seq::empty()
    } else {
        raws_concat(ts.drop_last()) + kind_raw(ts.last().kind)
    }
}

/// Determinism: the token sequence of an input is a function of the input
/// alone, so any two scans of the same input that meet the scanner's
/// contract produce identical outcomes.
pub proof fn lemma_tokenize_deterministic(s: Seq<char>, r1: TokensStep, r2: TokensStep)
    requires
        r1 == spec_tokens_from(s, 0),
        r2 == spec_tokens_from(s, 0),
    ensures
        r1 == r2,
{
}

} // verus!

verus! {

/// The fixed operator and punctuator lexemes of the grammar.  Comments and
/// the two-period prefix of an ellipsis are not lexemes: `//` and `/*` open
/// comments, and `..` alone is an error.
pub open spec fn is_op_lexeme(t: Seq<char>) -> bool {
    ||| t == seq!['=']
    ||| t == seq!['=', '=']
    ||| t == seq!['=', '=', '=']
    ||| t == seq!['=', '>']
    ||| t == seq!['!']
    ||| t == seq!['!', '=']
    ||| t == seq!['!', '=', '=']
    ||| t == seq!['&']
    ||| t == seq!['&', '&']
    ||| t == seq!['&', '=']
    ||| t == seq!['|']
    ||| t == seq!['|', '|']
    ||| t == seq!['|', '=']
    ||| t == seq!['^']
    ||| t == seq!['^', '=']
    ||| t == seq!['+']
    ||| t == seq!['+', '+']
    ||| t == seq!['+', '=']
    ||| t == seq!['-']
    ||| t == seq!['-', '-']
    ||| t == seq!['-', '=']
    ||| t == seq!['*']
    ||| t == seq!['*', '*']
    ||| t == seq!['*', '=']
    ||| t == seq!['*', '*', '=']
    ||| t == seq!['%']
    ||| t == seq!['%', '=']
    ||| t == seq!['>']
    ||| t == seq!['>', '=']
    ||| t == seq!['>', '>']
    ||| t == seq!['>', '>', '=']
    ||| t == seq!['>', '>', '>']
    ||| t == seq!['>', '>', '>', '=']
    ||| t == seq!['<']
    ||| t == seq!['<', '=']
    ||| t == seq!['<', '<']
    ||| t == seq!['<', '<', '=']
    ||| t == seq!['/']
    ||| t == seq!['/', '=']
    ||| t == seq!['.']
    ||| t == seq!['.', '.', '.']
    ||| t == seq!['~']
    ||| t == seq![';']
    ||| t == seq!['?']
    ||| t == seq![':']
    ||| t == seq![',']
    ||| t == seq!['{']
    ||| t == seq!['}']
    ||| t == seq!['(']
    ||| t == seq![')']
    ||| t == seq!['[']
    ||| t == seq![']']
}

/// Longest match: whenever one dispatch step emits an operator or punctuator
/// token, the consumed slice is one of the fixed operator lexemes, and no
/// one-character extension of it is: a shorter operator is never emitted
/// when a longer valid one is present.
#[verifier::rlimit(100)]
pub proof fn lemma_longest_match(s: Seq<char>, i: int)
    requires
        0 <= i < s.len(),
    ensures
        (match spec_next(s, i) {
            ScanStep::Tok { kind, end } => kind matches TokenKind::Op(_)
                ==> is_op_lexeme(s.subrange(i, end)) && (end < s.len() ==> !is_op_lexeme(
                s.subrange(i, end + 1),
            )),
            _ => true,
        }),
{
    let c = s[i];
    assert(s.subrange(i, i + 1) =~= seq![c]);
    if i + 1 < s.len() {
        assert(s.subrange(i, i + 2) =~= seq![c, s[i + 1]]);
    }
    if i + 2 < s.len() {
        assert(s.subrange(i, i + 3) =~= seq![c, s[i + 1], s[i + 2]]);
    }
    if i + 3 < s.len() {
        assert(s.subrange(i, i + 4) =~= seq![c, s[i + 1], s[i + 2], s[i + 3]]);
    }
    if i + 4 < s.len() {
        assert(s.subrange(i, i + 5) =~= seq![c, s[i + 1], s[i + 2], s[i + 3], s[i + 4]]);
    }
}

} // verus!

use crate::scan::lemma_next_raw;

verus! {

/// Concatenation distributes over putting one token in front of a sequence.
proof fn lemma_raws_concat_cons(v: TokenView, ts: Seq<TokenView>)
    ensures
        raws_concat(seq![v] + ts) == kind_raw(v.kind) + raws_concat(ts),
    decreases ts.len(),
{
    let u = seq![v] + ts;
    assert(u.len() == ts.len() + 1);
    assert(u.last() == (if ts.len() == 0 {
        v
    } else {
        ts.last()
    }));
    if ts.len() == 0 {
        assert(u.drop_last() =~= Seq::<TokenView>::empty());
        assert(raws_concat(u) == raws_concat(u.drop_last()) + kind_raw(v.kind));
        assert(Seq::<char>::empty() + kind_raw(v.kind) =~= kind_raw(v.kind) + Seq::<
            char,
        >::empty());
    } else {
        lemma_raws_concat_cons(v, ts.drop_last());
        assert(u.drop_last() =~= seq![v] + ts.drop_last());
        assert(raws_concat(u) == raws_concat(u.drop_last()) + kind_raw(ts.last().kind));
        assert(raws_concat(ts) == raws_concat(ts.drop_last()) + kind_raw(ts.last().kind));
        assert((kind_raw(v.kind) + raws_concat(ts.drop_last())) + kind_raw(ts.last().kind)
            =~= kind_raw(v.kind) + (raws_concat(ts.drop_last()) + kind_raw(ts.last().kind)));
    }
}

/// Round trip from position `i`: when scanning the rest of the input
/// succeeds, the raw texts of the produced tokens concatenate to exactly the
/// remaining input.
proof fn lemma_round_trip_from(s: Seq<char>, i: int)
    requires
        0 <= i <= s.len(),
    ensures
        (match spec_tokens_from(s, i) {
            TokensStep::Toks(tvs) => raws_concat(tvs) == s.subrange(i, s.len() as int),
            TokensStep::Fail(_) => true,
        }),
    decreases s.len() - i,
{
    match spec_next(s, i) {
        ScanStep::End => {
            assert(i == s.len());
            assert(raws_concat(Seq::<TokenView>::empty()) =~= s.subrange(i, s.len() as int));
        },
        ScanStep::Tok { kind, end } => {
            lemma_next_raw(s, i);
            lemma_round_trip_from(s, end);
            let tv = TokenView { line: line_at(s.take(i)), column: col_at(s.take(i)), kind };
            match spec_tokens_from(s, end) {
                TokensStep::Toks(rest) => {
                    lemma_raws_concat_cons(tv, rest);
                    assert(s.subrange(i, end) + s.subrange(end, s.len() as int) =~= s.subrange(
                        i,
                        s.len() as int,
                    ));
                },
                TokensStep::Fail(_e) => {},
            }
        },
        ScanStep::ErrChar { .. } => {},
        ScanStep::ErrEof => {},
    }
}

/// Round trip: when scanning a whole input succeeds, concatenating the raw
/// text of every produced token, in order, yields the input exactly.
pub proof fn lemma_round_trip(s: Seq<char>)
    ensures
        (match spec_tokens_from(s, 0) {
            TokensStep::Toks(tvs) => raws_concat(tvs) == s,
            TokensStep::Fail(_) => true,
        }),
{
    lemma_round_trip_from(s, 0);
    assert(s.subrange(0, s.len() as int) =~= s);
}

} // verus!
