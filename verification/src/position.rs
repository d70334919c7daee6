//! Position tracking: 1-based line and column counters, advanced for every
//! consumed character, with line terminators starting a new line.

use vstd::prelude::*;

use crate::chars::is_line_terminator_char;

verus! {

/// A source position: the 1-based line and column of a character.
#[derive(Clone, Copy, PartialEq, Eq, Structural, Debug)]
pub struct Location {
    pub line: u32,
    pub column: u32,
}

impl Location {
    pub fn new(line: u32, column: u32) -> (r: Location)
        ensures
            r == (Location { line, column }),
    {
        Location { line, column }
    }
}

/// The line number (1-based) of the tracker after consuming the characters of
/// `s`: each line terminator in `s` starts a new line.
pub open spec fn line_at(s: Seq<char>) -> int
    decreases s.len(),
{
    if s.len() == 0 {
        1
    } else if is_line_terminator_char(s.last()) {
        line_at(s.drop_last()) + 1
    } else {
        line_at(s.drop_last())
    }
}

/// The column number (1-based) of the tracker after consuming the characters
/// of `s`: a line terminator resets the column to 1, any other character
/// advances it by one.
pub open spec fn col_at(s: Seq<char>) -> int
    decreases s.len(),
{
    if s.len() == 0 {
        1
    } else if is_line_terminator_char(s.last()) {
        1
    } else {
        col_at(s.drop_last()) + 1
    }
}

/// The location of the tracker after consuming the first `n` characters of `s`.
pub open spec fn loc_at(s: Seq<char>, n: int) -> Location {
    (Location { line: line_at(s.take(n)) as u32, column: col_at(s.take(n)) as u32 })
}

/// Line and column never exceed the number of consumed characters plus one,
/// and both start at 1.
pub proof fn lemma_line_col_bounds(s: Seq<char>)
    ensures
        1 <= line_at(s) <= s.len() + 1,
        1 <= col_at(s) <= s.len() + 1,
    decreases s.len(),
{
    if s.len() > 0 {
        lemma_line_col_bounds(s.drop_last());
    }
}

/// Consuming one more character advances the tracker by exactly one step: a
/// line terminator strictly increments the line and resets the column to 1,
/// any other character leaves the line alone and increments the column.
pub proof fn lemma_tracker_step(s: Seq<char>, n: int)
    requires
        0 <= n < s.len(),
    ensures
        is_line_terminator_char(s[n]) ==> line_at(s.take(n + 1)) == line_at(s.take(n)) + 1
            && col_at(s.take(n + 1)) == 1,
        !is_line_terminator_char(s[n]) ==> line_at(s.take(n + 1)) == line_at(s.take(n))
            && col_at(s.take(n + 1)) == col_at(s.take(n)) + 1,
{
    assert(s.take(n + 1).drop_last() =~= s.take(n));
    assert(s.take(n + 1).last() == s[n]);
}

/// Lexicographic order on (line, column) pairs, written over the mathematical
/// counters.
pub open spec fn pos_le(line_a: int, col_a: int, line_b: int, col_b: int) -> bool {
    line_a < line_b || (line_a == line_b && col_a <= col_b)
}

/// Positions are non-decreasing in (line, column) lexicographic order as the
/// scanner consumes characters.
pub proof fn lemma_position_monotonic(s: Seq<char>, i: int, j: int)
    requires
        0 <= i <= j <= s.len(),
    ensures
        pos_le(line_at(s.take(i)), col_at(s.take(i)), line_at(s.take(j)), col_at(s.take(j))),
    decreases j - i,
{
    if i < j {
        lemma_position_monotonic(s, i, j - 1);
        lemma_tracker_step(s, j - 1);
    }
}

} // verus!
