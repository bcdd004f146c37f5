//! The mathematical model: grids as sequences of rows, the neighbor
//! relation with its edge policy, and the cell transition rule.

use vstd::prelude::*;

verus! {

/// A cell state is a small integer restricted to 0 (dead) or 1 (alive).
pub open spec fn is_cell(c: i8) -> bool {
    c == 0 || c == 1
}

/// A grid is well formed when it has at least one row, its first row has at
/// least one column, every row has the same length, and every cell is 0 or 1.
pub open spec fn well_formed(g: Seq<Seq<i8>>) -> bool {
    &&& g.len() > 0
    &&& g[0].len() > 0
    &&& forall|i: int| 0 <= i < g.len() ==> #[trigger] g[i].len() == g[0].len()
    &&& forall|i: int, j: int|
        0 <= i < g.len() && 0 <= j < g[i].len() ==> is_cell(#[trigger] g[i][j])
}

/// Position (x, y) lies inside the grid: x indexes the rows, y the columns.
pub open spec fn in_bounds(g: Seq<Seq<i8>>, x: int, y: int) -> bool {
    0 <= x < g.len() && 0 <= y < g[0].len()
}

/// 1 when position (x, y) exists in the grid and holds a live cell, else 0.
pub open spec fn live_at(g: Seq<Seq<i8>>, x: int, y: int) -> int {
    if in_bounds(g, x, y) && g[x][y] == 1 {
        1int
    } else {
        0int
    }
}

/// The number of live cells among the up-to-eight neighbors of (x, y).
/// Positions outside the grid contribute nothing: no wraparound.
pub open spec fn live_neighbor_count(g: Seq<Seq<i8>>, x: int, y: int) -> int {
    live_at(g, x - 1, y) + live_at(g, x + 1, y) + live_at(g, x, y - 1) + live_at(g, x, y + 1)
        + live_at(g, x - 1, y - 1) + live_at(g, x - 1, y + 1) + live_at(g, x + 1, y + 1) + live_at(
        g,
        x + 1,
        y - 1,
    )
}

/// 1 when the neighbor position (x, y) is a candidate (inside the grid).
pub open spec fn candidate_at(g: Seq<Seq<i8>>, x: int, y: int) -> int {
    if in_bounds(g, x, y) {
        1int
    } else {
        0int
    }
}

/// How many of the eight neighbor positions of (x, y) lie inside the grid.
pub open spec fn candidate_count(g: Seq<Seq<i8>>, x: int, y: int) -> int {
    candidate_at(g, x - 1, y) + candidate_at(g, x + 1, y) + candidate_at(g, x, y - 1)
        + candidate_at(g, x, y + 1) + candidate_at(g, x - 1, y - 1) + candidate_at(g, x - 1, y + 1)
        + candidate_at(g, x + 1, y + 1) + candidate_at(g, x + 1, y - 1)
}

/// The cell value of position (x, y) as a sequence: one element when the
/// position is inside the grid, empty when it is not.
pub open spec fn maybe_cell(g: Seq<Seq<i8>>, x: int, y: int) -> Seq<i8> {
    if in_bounds(g, x, y) {
        seq![g[x][y]]
    } else {
        Seq::empty()
    }
}

/// The values of the in-bounds neighbors of (x, y), in the order the
/// neighbor counter visits them: left, right, top, bottom, then the
/// four diagonals.
pub open spec fn neighbor_values(g: Seq<Seq<i8>>, x: int, y: int) -> Seq<i8> {
    maybe_cell(g, x - 1, y) + maybe_cell(g, x + 1, y) + maybe_cell(g, x, y - 1) + maybe_cell(
        g,
        x,
        y + 1,
    ) + maybe_cell(g, x - 1, y - 1) + maybe_cell(g, x - 1, y + 1) + maybe_cell(g, x + 1, y + 1)
        + maybe_cell(g, x + 1, y - 1)
}

/// The number of live cells in a sequence of cell values.
pub open spec fn count_live(s: Seq<i8>) -> int
    decreases s.len(),
{
    if s.len() == 0 {
        0int
    } else {
        count_live(s.drop_last()) + if s.last() == 1 {
            1int
        } else {
            0int
        }
    }
}

/// The Game of Life rule for one cell: s is its current state and n the
/// number of its live neighbors. Fewer than two live neighbors or more
/// than three kill the cell; a dead cell with exactly three is born;
/// otherwise the cell keeps its state.
pub open spec fn next_state(s: i8, n: int) -> i8 {
    if n < 2 {
        0i8
    } else if n > 3 {
        0i8
    } else if s == 0 && n == 3 {
        1i8
    } else {
        s
    }
}

/// One synchronous step of the whole grid: every cell of the result is the
/// rule applied to the corresponding cell of g, with every neighbor looked
/// up in g itself.
pub open spec fn step(g: Seq<Seq<i8>>) -> Seq<Seq<i8>> {
    Seq::new(
        g.len(),
        |x: int| Seq::new(g[0].len(), |y: int| next_state(g[x][y], live_neighbor_count(g, x, y))),
    )
}

/// Counting live cells distributes over concatenation.
pub proof fn lemma_count_live_concat(a: Seq<i8>, b: Seq<i8>)
    ensures
        count_live(a + b) == count_live(a) + count_live(b),
    decreases b.len(),
{
    if b.len() == 0 {
        assert(a + b =~= a);
    } else {
        lemma_count_live_concat(a, b.drop_last());
        assert((a + b).drop_last() =~= a + b.drop_last());
        assert((a + b).last() == b.last());
    }
}

/// The one-position sequence for (x, y) holds live_at(g, x, y) live cells.
pub proof fn lemma_count_maybe_cell(g: Seq<Seq<i8>>, x: int, y: int)
    ensures
        count_live(maybe_cell(g, x, y)) == live_at(g, x, y),
{
    if in_bounds(g, x, y) {
        let s = maybe_cell(g, x, y);
        assert(s.len() == 1);
        assert(s[0] == g[x][y]);
        assert(s.last() == s[0]);
        assert(s.drop_last() =~= Seq::<i8>::empty());
        assert(count_live(s.drop_last()) == 0);
        assert(count_live(s) == count_live(s.drop_last()) + if s.last() == 1 { 1int } else { 0int });
    }
}

/// The live cells among the neighbor values are exactly the live-neighbor
/// count: the sequence form and the arithmetic form of the neighborhood
/// agree.
pub proof fn lemma_count_neighbor_values(g: Seq<Seq<i8>>, x: int, y: int)
    ensures
        count_live(neighbor_values(g, x, y)) == live_neighbor_count(g, x, y),
{
    let s1 = maybe_cell(g, x - 1, y);
    let s2 = maybe_cell(g, x + 1, y);
    let s3 = maybe_cell(g, x, y - 1);
    let s4 = maybe_cell(g, x, y + 1);
    let s5 = maybe_cell(g, x - 1, y - 1);
    let s6 = maybe_cell(g, x - 1, y + 1);
    let s7 = maybe_cell(g, x + 1, y + 1);
    let s8 = maybe_cell(g, x + 1, y - 1);
    lemma_count_maybe_cell(g, x - 1, y);
    lemma_count_maybe_cell(g, x + 1, y);
    lemma_count_maybe_cell(g, x, y - 1);
    lemma_count_maybe_cell(g, x, y + 1);
    lemma_count_maybe_cell(g, x - 1, y - 1);
    lemma_count_maybe_cell(g, x - 1, y + 1);
    lemma_count_maybe_cell(g, x + 1, y + 1);
    lemma_count_maybe_cell(g, x + 1, y - 1);
    lemma_count_live_concat(s1, s2);
    lemma_count_live_concat(s1 + s2, s3);
    lemma_count_live_concat(s1 + s2 + s3, s4);
    lemma_count_live_concat(s1 + s2 + s3 + s4, s5);
    lemma_count_live_concat(s1 + s2 + s3 + s4 + s5, s6);
    lemma_count_live_concat(s1 + s2 + s3 + s4 + s5 + s6, s7);
    lemma_count_live_concat(s1 + s2 + s3 + s4 + s5 + s6 + s7, s8);
}

} // verus!
