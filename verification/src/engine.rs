//! The executable engine: the neighbor counter and the transition that
//! advances a grid by one generation.

use vstd::prelude::*;
use crate::rules::{
    well_formed, live_neighbor_count, maybe_cell, neighbor_values, count_live, next_state, step,
};

verus! {

/// Collects the values of the up-to-eight neighbors of (x, y), visiting
/// left, right, top, bottom, then the four diagonals, and skipping any
/// position that falls outside the grid.
pub fn find_neightbors(map: &Vec<Vec<i8>>, x: usize, y: usize) -> (r: Vec<i8>)
    requires
        well_formed(map.deep_view()),
        x < map.deep_view().len(),
        y < map.deep_view()[0].len(),
    ensures
        r@ == neighbor_values(map.deep_view(), x as int, y as int),
        count_live(r@) == live_neighbor_count(map.deep_view(), x as int, y as int),
{
    let ghost g = map.deep_view();
    let ghost xi = x as int;
    let ghost yi = y as int;
    let mut neightbors: Vec<i8> = Vec::new();
    let width = map.len();
    let height = map[0].len();
    assert(width == g.len());
    assert(height == g[0].len());
    assert(forall|i: int| 0 <= i < g.len() ==> #[trigger] map@[i]@.len() == g[i].len());

    if x >= 1 {
        neightbors.push(map[x - 1][y]);  // left
    }
    assert(neightbors@ =~= maybe_cell(g, xi - 1, yi));

    if x + 1 < width {
        neightbors.push(map[x + 1][y]);  // right
    }
    assert(neightbors@ =~= maybe_cell(g, xi - 1, yi) + maybe_cell(g, xi + 1, yi));

    if y >= 1 {
        neightbors.push(map[x][y - 1]);  // top
    }
    assert(neightbors@ =~= maybe_cell(g, xi - 1, yi) + maybe_cell(g, xi + 1, yi) + maybe_cell(
        g,
        xi,
        yi - 1,
    ));

    if y + 1 < height {
        neightbors.push(map[x][y + 1]);  // bottom
    }
    assert(neightbors@ =~= maybe_cell(g, xi - 1, yi) + maybe_cell(g, xi + 1, yi) + maybe_cell(
        g,
        xi,
        yi - 1,
    ) + maybe_cell(g, xi, yi + 1));

    if x >= 1 && y >= 1 {
        neightbors.push(map[x - 1][y - 1]);  // top-left
    }
    assert(neightbors@ =~= maybe_cell(g, xi - 1, yi) + maybe_cell(g, xi + 1, yi) + maybe_cell(
        g,
        xi,
        yi - 1,
    ) + maybe_cell(g, xi, yi + 1) + maybe_cell(g, xi - 1, yi - 1));

    if x >= 1 && y + 1 < height {
        neightbors.push(map[x - 1][y + 1]);  // bottom-left
    }
    assert(neightbors@ =~= maybe_cell(g, xi - 1, yi) + maybe_cell(g, xi + 1, yi) + maybe_cell(
        g,
        xi,
        yi - 1,
    ) + maybe_cell(g, xi, yi + 1) + maybe_cell(g, xi - 1, yi - 1) + maybe_cell(g, xi - 1, yi + 1));

    if x + 1 < width && y + 1 < height {
        neightbors.push(map[x + 1][y + 1]);  // top-right
    }
    assert(neightbors@ =~= maybe_cell(g, xi - 1, yi) + maybe_cell(g, xi + 1, yi) + maybe_cell(
        g,
        xi,
        yi - 1,
    ) + maybe_cell(g, xi, yi + 1) + maybe_cell(g, xi - 1, yi - 1) + maybe_cell(g, xi - 1, yi + 1)
        + maybe_cell(g, xi + 1, yi + 1));

    if x + 1 < width && y >= 1 {
        neightbors.push(map[x + 1][y - 1]);  // bottom-right
    }
    assert(neightbors@ =~= neighbor_values(g, xi, yi));

    proof {
        crate::rules::lemma_count_neighbor_values(g, xi, yi);
    }
    neightbors
}

/// Advances the grid by one generation. The input generation is consumed;
/// the result is a freshly built grid of the same dimensions in which
/// every cell is the rule applied to its old state and the live-neighbor
/// count taken entirely from the input grid, so that all cells step
/// simultaneously.
pub fn transition(map: Vec<Vec<i8>>) -> (r: Vec<Vec<i8>>)
    requires
        well_formed(map.deep_view()),
    ensures
        r.deep_view() == step(map.deep_view()),
        r.deep_view().len() == map.deep_view().len(),
        forall|i: int|
            0 <= i < map.deep_view().len() ==> #[trigger] r.deep_view()[i].len()
                == map.deep_view()[0].len(),
        well_formed(r.deep_view()),
{
    let ghost g = map.deep_view();
    let width = map.len();
    let height = map[0].len();
    assert(width == g.len());
    assert(height == g[0].len());
    let mut next: Vec<Vec<i8>> = Vec::new();
    let mut x: usize = 0;
    while x < width
        invariant
            well_formed(g),
            g == map.deep_view(),
            width == g.len(),
            height == g[0].len(),
            x <= width,
            next.deep_view().len() == x,
            forall|i: int| 0 <= i < x ==> #[trigger] next.deep_view()[i] == step(g)[i],
        decreases width - x,
    {
        let mut row: Vec<i8> = Vec::new();
        let mut y: usize = 0;
        while y < height
            invariant
                well_formed(g),
                g == map.deep_view(),
                width == g.len(),
                height == g[0].len(),
                x < width,
                y <= height,
                row@.len() == y,
                forall|j: int|
                    0 <= j < y ==> #[trigger] row@[j] == next_state(
                        g[x as int][j],
                        live_neighbor_count(g, x as int, j),
                    ),
            decreases height - y,
        {
            let neightbors = find_neightbors(&map, x, y);
            let ghost ns = neightbors@;
            let mut num_alive: usize = 0;
            let mut k: usize = 0;
            while k < neightbors.len()
                invariant
                    ns == neightbors@,
                    k <= ns.len(),
                    num_alive <= k,
                    num_alive == count_live(ns.take(k as int)),
                decreases ns.len() - k,
            {
                proof {
                    assert(ns.take(k as int + 1).drop_last() =~= ns.take(k as int));
                    assert(ns.take(k as int + 1).last() == ns[k as int]);
                }
                if neightbors[k] == 1 {
                    num_alive = num_alive + 1;
                }
                k = k + 1;
            }
            assert(ns.take(ns.len() as int) =~= ns);
            assert(num_alive == live_neighbor_count(g, x as int, y as int));

            let cell: i8 = if num_alive < 2 {
                0i8  // death by underpopulation
            } else if num_alive > 3 {
                0i8  // death by overpopulation
            } else if map[x][y] == 0 && num_alive == 3 {
                1i8  // birth by reproduction
            } else {
                map[x][y]  // unchanged
            };
            assert(cell == next_state(g[x as int][y as int], live_neighbor_count(g, x as int, y as int)));
            row.push(cell);
            y = y + 1;
        }
        assert(row@ =~= step(g)[x as int]);
        assert(row.deep_view() =~= row@);
        let ghost prev = next.deep_view();
        next.push(row);
        proof {
            assert forall|i: int| 0 <= i < x + 1 implies #[trigger] next.deep_view()[i] == step(
                g,
            )[i] by {
                if i < x {
                    assert(next.deep_view()[i] == prev[i]);
                } else {
                    assert(next.deep_view()[i] == row.deep_view());
                }
            }
        }
        x = x + 1;
    }
    proof {
        crate::laws::lemma_step_preserves_dimensions(g);
        assert(next.deep_view() =~= step(g));
    }
    next
}

} // verus!
