//! Conversions between byte offsets, tree points (row/column, counting
//! bytes) and protocol positions (line/character).

use vstd::prelude::*;

use crate::types::{LspRange, TsPoint, Position, TsRange};

verus! {

/// Strict lexicographic order on (row, column) pairs.
pub open spec fn lex_lt(a: (int, int), b: (int, int)) -> bool {
    a.0 < b.0 || (a.0 == b.0 && a.1 < b.1)
}

/// Non-strict lexicographic order on (row, column) pairs.
pub open spec fn lex_le(a: (int, int), b: (int, int)) -> bool {
    a.0 < b.0 || (a.0 == b.0 && a.1 <= b.1)
}

/// The (row, column) pair reached after scanning the first `n` bytes of `s`.
pub open spec fn point_at(s: Seq<u8>, n: int) -> (int, int)
    decreases n,
{
    if n <= 0 {
        (0int, 0int)
    } else {
        let p = point_at(s, n - 1);
        if s[n - 1] == 10u8 {
            (p.0 + 1, 0int)
        } else {
            (p.0, p.1 + 1)
        }
    }
}

/// Row and column after `n` bytes are at least 0 and at most `n`.
pub proof fn lemma_point_at_bounds(s: Seq<u8>, n: int)
    requires
        0 <= n,
    ensures
        0 <= point_at(s, n).0 <= n,
        0 <= point_at(s, n).1 <= n,
    decreases n,
{
    if n > 0 {
        lemma_point_at_bounds(s, n - 1);
    }
}

/// Scanning one more byte strictly increases the point, lexicographically.
pub proof fn lemma_point_at_step(s: Seq<u8>, n: int)
    requires
        0 <= n,
    ensures
        lex_lt(point_at(s, n), point_at(s, n + 1)),
{
}

/// The point after `i` bytes is lexicographically below the point after
/// `j` bytes whenever `i < j`.
pub proof fn lemma_point_at_increases(s: Seq<u8>, i: int, j: int)
    requires
        0 <= i < j,
    ensures
        lex_lt(point_at(s, i), point_at(s, j)),
    decreases j - i,
{
    lemma_point_at_step(s, j - 1);
    if i < j - 1 {
        lemma_point_at_increases(s, i, j - 1);
    }
}

/// The first byte offset `i` at or after `i0` such that the point after
/// `i + 1` bytes lies beyond `p`; the buffer length when no such offset
/// exists (out-of-range points clamp to the end of the buffer).
pub open spec fn first_offset_beyond(s: Seq<u8>, p: (int, int), i0: int) -> int
    decreases s.len() - i0 when 0 <= i0 <= s.len()
{
    if i0 >= s.len() {
        s.len() as int
    } else if lex_lt(p, point_at(s, i0 + 1)) {
        i0
    } else {
        first_offset_beyond(s, p, i0 + 1)
    }
}

/// The byte offset that a (row, column) point denotes in `s`.
pub open spec fn spec_position_to_offset(s: Seq<u8>, p: (int, int)) -> int {
    first_offset_beyond(s, p, 0)
}

/// Converts a byte offset to the row/column point it denotes.
pub fn offset_to_position(input: &[u8], offset: usize) -> (r: TsPoint)
    requires
        offset <= input@.len(),
    ensures
        (r.row as int, r.column as int) == point_at(input@, offset as int),
{
    let mut row: usize = 0;
    let mut column: usize = 0;
    let mut i: usize = 0;
    while i < offset
        invariant
            0 <= i <= offset <= input@.len(),
            (row as int, column as int) == point_at(input@, i as int),
        decreases offset - i,
    {
        proof {
            lemma_point_at_bounds(input@, i as int);
        }
        if input[i] == 10u8 {
            row = row + 1;
            column = 0;
        } else {
            column = column + 1;
        }
        i = i + 1;
    }
    TsPoint { row, column }
}

/// Converts a row/column point to the byte offset it denotes, scanning
/// from the start of the buffer; points past the end clamp to the buffer
/// length.
pub fn position_to_offset(input: &[u8], position: TsPoint) -> (r: usize)
    ensures
        r as int == spec_position_to_offset(
            input@,
            (position.row as int, position.column as int),
        ),
        r <= input@.len(),
{
    let ghost p: (int, int) = (position.row as int, position.column as int);
    let mut row: usize = 0;
    let mut column: usize = 0;
    let mut i: usize = 0;
    let n: usize = input.len();
    while i < n
        invariant
            0 <= i <= n == input@.len(),
            (row as int, column as int) == point_at(input@, i as int),
            first_offset_beyond(input@, p, 0) == first_offset_beyond(input@, p, i as int),
            p == (position.row as int, position.column as int),
        decreases n - i,
    {
        proof {
            lemma_point_at_bounds(input@, i as int);
        }
        if input[i] == 10u8 {
            row = row + 1;
            column = 0;
        } else {
            column = column + 1;
        }
        let beyond: bool = row > position.row || (row == position.row && column
            > position.column);
        if beyond {
            return i;
        }
        i = i + 1;
    }
    n
}

/// Round trip: converting a valid byte offset to a point and back yields
/// the same offset.
pub proof fn lemma_point_offset_round_trip(s: Seq<u8>, o: int)
    requires
        0 <= o <= s.len(),
    ensures
        spec_position_to_offset(s, point_at(s, o)) == o,
{
    lemma_first_offset_stays(s, o, 0);
}

proof fn lemma_first_offset_stays(s: Seq<u8>, o: int, i: int)
    requires
        0 <= i <= o <= s.len(),
    ensures
        first_offset_beyond(s, point_at(s, o), i) == o,
    decreases o - i,
{
    let p = point_at(s, o);
    if i == o {
        if o < s.len() {
            lemma_point_at_increases(s, o, o + 1);
        }
    } else {
        if i + 1 < o {
            lemma_point_at_increases(s, i + 1, o);
        }
        lemma_first_offset_stays(s, o, i + 1);
    }
}

/// Converts a tree point to a protocol position.
pub fn ts_point_to_lsp_position(point: &TsPoint) -> (r: Position)
    requires
        point.row <= u32::MAX,
        point.column <= u32::MAX,
    ensures
        r.line as int == point.row as int,
        r.character as int == point.column as int,
{
    Position { line: point.row as u32, character: point.column as u32 }
}

/// Converts a protocol position to a tree point.
pub fn lsp_position_to_ts_point(position: &Position) -> (r: TsPoint)
    ensures
        r.row as int == position.line as int,
        r.column as int == position.character as int,
{
    TsPoint { row: position.line as usize, column: position.character as usize }
}

/// Converts a tree range to a protocol range, keeping the points;
/// coordinates truncate to the protocol's 32-bit width.
pub fn ts_range_to_lsp_range(range: &TsRange) -> (r: LspRange)
    ensures
        r == spec_ts_range_to_lsp_range(*range),
{
    LspRange {
        start: Position {
            line: #[verifier::truncate] (range.start_point.row as u32),
            character: #[verifier::truncate] (range.start_point.column as u32),
        },
        end: Position {
            line: #[verifier::truncate] (range.end_point.row as u32),
            character: #[verifier::truncate] (range.end_point.column as u32),
        },
    }
}

/// The protocol range carrying the same points as a tree range.
pub open spec fn spec_ts_range_to_lsp_range(range: TsRange) -> LspRange {
    LspRange {
        start: Position {
            line: range.start_point.row as u32,
            character: range.start_point.column as u32,
        },
        end: Position {
            line: range.end_point.row as u32,
            character: range.end_point.column as u32,
        },
    }
}

/// Converts a protocol range to a tree range against a buffer: the points
/// carry over and the byte offsets are computed by scanning the buffer.
pub fn lsp_range_to_ts_range(range: &LspRange, input: &[u8]) -> (r: TsRange)
    ensures
        r.start_point.row as int == range.start.line as int,
        r.start_point.column as int == range.start.character as int,
        r.end_point.row as int == range.end.line as int,
        r.end_point.column as int == range.end.character as int,
        r.start_byte as int == spec_position_to_offset(
            input@,
            (range.start.line as int, range.start.character as int),
        ),
        r.end_byte as int == spec_position_to_offset(
            input@,
            (range.end.line as int, range.end.character as int),
        ),
{
    let start_point = TsPoint {
        row: range.start.line as usize,
        column: range.start.character as usize,
    };
    let end_point = TsPoint { row: range.end.line as usize, column: range.end.character as usize };
    let start_byte = position_to_offset(input, start_point);
    let end_byte = position_to_offset(input, end_point);
    TsRange { start_byte, end_byte, start_point, end_point }
}

} // verus!
