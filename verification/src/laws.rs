//! Grid-level laws: proved consequences of the model that hold of every
//! well-formed grid, stated once so that callers and readers can rely on
//! them without re-deriving them from the definitions.

use vstd::prelude::*;
use crate::rules::{
    is_cell, well_formed, in_bounds, candidate_count, live_neighbor_count, neighbor_values,
    next_state, step,
};

verus! {

/// Position (x, y) touches no edge of the grid: all eight neighbor
/// positions exist.
pub open spec fn is_interior(g: Seq<Seq<i8>>, x: int, y: int) -> bool {
    1 <= x && x + 1 < g.len() && 1 <= y && y + 1 < g[0].len()
}

/// Position (x, y) touches an edge in both dimensions.
pub open spec fn is_corner(g: Seq<Seq<i8>>, x: int, y: int) -> bool {
    (x == 0 || x + 1 == g.len()) && (y == 0 || y + 1 == g[0].len())
}

/// A step preserves the grid's dimensions and its well-formedness: the
/// result has the same number of rows, every row keeps the common length,
/// and every cell is again 0 or 1.
pub proof fn lemma_step_preserves_dimensions(g: Seq<Seq<i8>>)
    requires
        well_formed(g),
    ensures
        step(g).len() == g.len(),
        forall|i: int| 0 <= i < g.len() ==> #[trigger] step(g)[i].len() == g[0].len(),
        well_formed(step(g)),
{
    let s = step(g);
    assert forall|i: int, j: int| 0 <= i < s.len() && 0 <= j < s[i].len() implies is_cell(
        #[trigger] s[i][j],
    ) by {
        assert(s[i][j] == next_state(g[i][j], live_neighbor_count(g, i, j)));
        assert(is_cell(g[i][j]));
    }
}

/// How many neighbor positions a cell has, by where it sits: an interior
/// cell considers exactly 8 candidate positions, a corner cell exactly 3,
/// and an edge cell that is not a corner exactly 5. The neighbor counter
/// returns one value per candidate position, so its result has exactly
/// that length. Grids with a single row or a single column are excluded:
/// there a corner has fewer candidates still.
pub proof fn lemma_candidate_counts(g: Seq<Seq<i8>>, x: int, y: int)
    requires
        well_formed(g),
        2 <= g.len(),
        2 <= g[0].len(),
        in_bounds(g, x, y),
    ensures
        is_interior(g, x, y) ==> candidate_count(g, x, y) == 8,
        is_corner(g, x, y) ==> candidate_count(g, x, y) == 3,
        !is_interior(g, x, y) && !is_corner(g, x, y) ==> candidate_count(g, x, y) == 5,
        neighbor_values(g, x, y).len() == candidate_count(g, x, y),
{
}

/// The rule table for one cell: a live cell with fewer than two live
/// neighbors dies, with two or three survives, with four or more dies;
/// a dead cell with exactly three live neighbors is born, and with any
/// other count stays dead.
pub proof fn lemma_rule_table(s: i8, n: int)
    requires
        is_cell(s),
        0 <= n,
    ensures
        s == 1 && n <= 1 ==> next_state(s, n) == 0,
        s == 1 && (n == 2 || n == 3) ==> next_state(s, n) == 1,
        s == 1 && n >= 4 ==> next_state(s, n) == 0,
        s == 0 && n == 3 ==> next_state(s, n) == 1,
        s == 0 && n != 3 ==> next_state(s, n) == 0,
{
}

} // verus!
