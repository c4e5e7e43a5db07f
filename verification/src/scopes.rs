//! Smallest-enclosing-scope computation over an ordered scope sequence.
//!
//! Scopes are ordered by structural nesting: outer scopes precede the
//! inner scopes they contain. Index 0 doubles as the implicit global
//! marker when no scope strictly contains a node.

use vstd::prelude::*;

use crate::types::{TsPoint, Position, TsRange};

verus! {

/// Whether `scope` strictly contains `node`, by byte offsets.
pub open spec fn strictly_contains(scope: TsRange, node: TsRange) -> bool {
    scope.start_byte < node.start_byte && node.end_byte < scope.end_byte
}

/// Whether the byte span of `inner` lies within the byte span of `outer`.
pub open spec fn nested_within(inner: TsRange, outer: TsRange) -> bool {
    outer.start_byte <= inner.start_byte && inner.end_byte <= outer.end_byte
}

/// Whether the byte spans of `a` and `b` are disjoint.
pub open spec fn disjoint(a: TsRange, b: TsRange) -> bool {
    a.end_byte <= b.start_byte || b.end_byte <= a.start_byte
}

/// An ordered scope sequence is properly nested when any later scope is
/// either nested within an earlier one or disjoint from it.
pub open spec fn properly_nested(scopes: Seq<TsRange>) -> bool {
    forall|i: int, j: int|
        0 <= i < j < scopes.len() ==> nested_within(#[trigger] scopes[j], #[trigger] scopes[i])
            || disjoint(scopes[j], scopes[i])
}

/// The index of the last scope strictly containing `node`, or 0 when no
/// scope does (the implicit global marker).
pub open spec fn spec_smallest_scope_by_range(node: TsRange, scopes: Seq<TsRange>) -> int
    decreases scopes.len(),
{
    if scopes.len() == 0 {
        0
    } else if strictly_contains(scopes[scopes.len() - 1], node) {
        scopes.len() - 1
    } else {
        spec_smallest_scope_by_range(node, scopes.drop_last())
    }
}

/// Whether some scope in `scopes` strictly contains `node`.
pub open spec fn some_scope_contains(node: TsRange, scopes: Seq<TsRange>) -> bool {
    exists|i: int| 0 <= i < scopes.len() && strictly_contains(#[trigger] scopes[i], node)
}

/// The smallest-scope result is within bounds; when some scope contains
/// the node it names the last containing scope, and otherwise it is 0.
pub proof fn lemma_smallest_scope_by_range_character(node: TsRange, scopes: Seq<TsRange>)
    ensures
        0 <= spec_smallest_scope_by_range(node, scopes),
        scopes.len() == 0 ==> spec_smallest_scope_by_range(node, scopes) == 0,
        scopes.len() > 0 ==> spec_smallest_scope_by_range(node, scopes) < scopes.len(),
        some_scope_contains(node, scopes) ==> strictly_contains(
            scopes[spec_smallest_scope_by_range(node, scopes)],
            node,
        ),
        forall|i: int|
            0 <= i < scopes.len() && strictly_contains(#[trigger] scopes[i], node) ==> i
                <= spec_smallest_scope_by_range(node, scopes),
        !some_scope_contains(node, scopes) ==> spec_smallest_scope_by_range(node, scopes) == 0,
    decreases scopes.len(),
{
    if scopes.len() > 0 && !strictly_contains(scopes[scopes.len() - 1], node) {
        lemma_smallest_scope_by_range_character(node, scopes.drop_last());
        assert forall|i: int|
            0 <= i < scopes.len() && strictly_contains(#[trigger] scopes[i], node) implies i
            <= spec_smallest_scope_by_range(node, scopes) by {
            assert(scopes.drop_last()[i] == scopes[i]);
        }
        if some_scope_contains(node, scopes) {
            let i = choose|i: int|
                0 <= i < scopes.len() && strictly_contains(#[trigger] scopes[i], node);
            assert(scopes.drop_last()[i] == scopes[i]);
            assert(some_scope_contains(node, scopes.drop_last()));
        }
    }
}

/// Returns the index of the innermost scope strictly containing the
/// node's byte range: the last containing entry in nesting order, or 0
/// (the global marker) when no scope contains it.
pub fn get_smallest_scope_id_by_node(node: &TsRange, scopes: &[TsRange]) -> (r: usize)
    ensures
        r as int == spec_smallest_scope_by_range(*node, scopes@),
{
    let mut result: usize = 0;
    let mut pos: usize = 0;
    while pos < scopes.len()
        invariant
            0 <= pos <= scopes@.len(),
            result as int == spec_smallest_scope_by_range(*node, scopes@.take(pos as int)),
        decreases scopes@.len() - pos,
    {
        let scope = scopes[pos];
        if node.start_byte > scope.start_byte && node.end_byte < scope.end_byte {
            result = pos;
        }
        proof {
            assert(scopes@.take(pos as int + 1).drop_last() =~= scopes@.take(pos as int));
            assert(scopes@.take(pos as int + 1)[pos as int] == scopes@[pos as int]);
            lemma_smallest_scope_by_range_character(*node, scopes@.take(pos as int));
        }
        pos = pos + 1;
    }
    proof {
        assert(scopes@.take(scopes@.len() as int) =~= scopes@);
    }
    result
}

/// The smallest enclosing scope is the innermost: it is nested within
/// every scope that strictly contains the node. When no scope contains
/// the node the result is the global marker 0.
pub proof fn lemma_smallest_scope_innermost(node: TsRange, scopes: Seq<TsRange>)
    requires
        properly_nested(scopes),
        node.start_byte <= node.end_byte,
    ensures
        some_scope_contains(node, scopes) ==> {
            let k = spec_smallest_scope_by_range(node, scopes);
            &&& 0 <= k < scopes.len()
            &&& strictly_contains(scopes[k], node)
            &&& forall|i: int|
                0 <= i < scopes.len() && strictly_contains(#[trigger] scopes[i], node)
                    ==> nested_within(scopes[k], scopes[i])
        },
        !some_scope_contains(node, scopes) ==> spec_smallest_scope_by_range(node, scopes) == 0,
{
    lemma_smallest_scope_by_range_character(node, scopes);
    if some_scope_contains(node, scopes) {
        let k = spec_smallest_scope_by_range(node, scopes);
        assert forall|i: int|
            0 <= i < scopes.len() && strictly_contains(#[trigger] scopes[i], node) implies
            nested_within(scopes[k], scopes[i]) by {
            if i < k {
                // both contain the node, so they overlap and nesting applies
                assert(!disjoint(scopes[k], scopes[i]));
            }
        }
    }
}

/// Whether `p`, read as a row/column point, lies strictly inside the
/// point span of `scope`.
pub open spec fn position_strictly_inside(p: Position, scope: TsRange) -> bool {
    point_lt(scope.start_point, point_of_position(p)) && point_lt(
        point_of_position(p),
        scope.end_point,
    )
}

/// The tree point with the same coordinates as a protocol position.
pub open spec fn point_of_position(p: Position) -> TsPoint {
    TsPoint { row: p.line as usize, column: p.character as usize }
}

/// Strict lexicographic order on points.
pub open spec fn point_lt(a: TsPoint, b: TsPoint) -> bool {
    a.row < b.row || (a.row == b.row && a.column < b.column)
}

/// The index of the last scope whose point span strictly contains `p`,
/// or 0 when none does (the implicit global marker).
pub open spec fn spec_smallest_scope_by_position(p: Position, scopes: Seq<TsRange>) -> int
    decreases scopes.len(),
{
    if scopes.len() == 0 {
        0
    } else if position_strictly_inside(p, scopes[scopes.len() - 1]) {
        scopes.len() - 1
    } else {
        spec_smallest_scope_by_position(p, scopes.drop_last())
    }
}

/// Returns the index of the innermost scope whose point span strictly
/// contains the position, or 0 (the global marker) when none does.
pub fn get_smallest_scope_id_by_position(p: &Position, scopes: &[TsRange]) -> (r: usize)
    ensures
        r as int == spec_smallest_scope_by_position(*p, scopes@),
{
    let mut result: usize = 0;
    let mut pos: usize = 0;
    let pt = TsPoint { row: p.line as usize, column: p.character as usize };
    while pos < scopes.len()
        invariant
            0 <= pos <= scopes@.len(),
            pt == point_of_position(*p),
            result as int == spec_smallest_scope_by_position(*p, scopes@.take(pos as int)),
        decreases scopes@.len() - pos,
    {
        let scope = scopes[pos];
        let after_start: bool = pt.row > scope.start_point.row || (pt.row == scope.start_point.row
            && pt.column > scope.start_point.column);
        let before_end: bool = pt.row < scope.end_point.row || (pt.row == scope.end_point.row
            && pt.column < scope.end_point.column);
        if after_start && before_end {
            result = pos;
        }
        proof {
            assert(scopes@.take(pos as int + 1).drop_last() =~= scopes@.take(pos as int));
            assert(scopes@.take(pos as int + 1)[pos as int] == scopes@[pos as int]);
            lemma_smallest_scope_by_position_bounds(*p, scopes@.take(pos as int));
        }
        pos = pos + 1;
    }
    proof {
        assert(scopes@.take(scopes@.len() as int) =~= scopes@);
    }
    result
}

proof fn lemma_smallest_scope_by_position_bounds(p: Position, scopes: Seq<TsRange>)
    ensures
        0 <= spec_smallest_scope_by_position(p, scopes),
        scopes.len() == 0 ==> spec_smallest_scope_by_position(p, scopes) == 0,
        scopes.len() > 0 ==> spec_smallest_scope_by_position(p, scopes) < scopes.len(),
    decreases scopes.len(),
{
    if scopes.len() > 0 && !position_strictly_inside(p, scopes[scopes.len() - 1]) {
        lemma_smallest_scope_by_position_bounds(p, scopes.drop_last());
    }
}

} // verus!
