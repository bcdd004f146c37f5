use game_of_life::engine::find_neightbors;
use game_of_life::engine::transition;
use game_of_life::render::render;

fn all_dead(width: usize, height: usize) -> Vec<Vec<i8>> {
    let mut g: Vec<Vec<i8>> = Vec::new();
    for _ in 0..width {
        let mut row: Vec<i8> = Vec::new();
        for _ in 0..height {
            row.push(0);
        }
        g.push(row);
    }
    g
}

fn with_alive(mut g: Vec<Vec<i8>>, cells: &[(usize, usize)]) -> Vec<Vec<i8>> {
    for &(x, y) in cells {
        g[x][y] = 1;
    }
    g
}

#[test]
fn corner_has_three_candidates() {
    let g = all_dead(3, 3);
    assert_eq!(find_neightbors(&g, 0, 0).len(), 3);
    assert_eq!(find_neightbors(&g, 0, 2).len(), 3);
    assert_eq!(find_neightbors(&g, 2, 0).len(), 3);
    assert_eq!(find_neightbors(&g, 2, 2).len(), 3);
}

#[test]
fn edge_has_five_candidates() {
    let g = all_dead(3, 3);
    assert_eq!(find_neightbors(&g, 0, 1).len(), 5);
    assert_eq!(find_neightbors(&g, 1, 0).len(), 5);
    assert_eq!(find_neightbors(&g, 1, 2).len(), 5);
    assert_eq!(find_neightbors(&g, 2, 1).len(), 5);
}

#[test]
fn interior_has_eight_candidates() {
    let g = all_dead(3, 3);
    assert_eq!(find_neightbors(&g, 1, 1).len(), 8);
    let big = all_dead(5, 7);
    assert_eq!(find_neightbors(&big, 2, 3).len(), 8);
}

#[test]
fn neighbors_come_in_visiting_order() {
    // Around the center of a 3x3 grid the order is left, right, top,
    // bottom, top-left, bottom-left, top-right, bottom-right, that is
    // (0,1), (2,1), (1,0), (1,2), (0,0), (0,2), (2,2), (2,0).
    let g = with_alive(all_dead(3, 3), &[(0, 1), (1, 0), (0, 0), (2, 2)]);
    assert_eq!(find_neightbors(&g, 1, 1), vec![1, 0, 1, 0, 1, 0, 1, 0]);
}

#[test]
fn neighbor_count_ignores_center_cell() {
    let g = with_alive(all_dead(3, 3), &[(1, 1)]);
    let n = find_neightbors(&g, 1, 1);
    assert_eq!(n.iter().filter(|&&c| c == 1).count(), 0);
}

#[test]
fn transition_preserves_dimensions() {
    let g = with_alive(all_dead(4, 6), &[(0, 0), (1, 2), (3, 5)]);
    let next = transition(g);
    assert_eq!(next.len(), 4);
    for row in &next {
        assert_eq!(row.len(), 6);
    }
}

#[test]
fn live_cell_with_no_neighbor_dies() {
    let g = with_alive(all_dead(3, 3), &[(1, 1)]);
    assert_eq!(transition(g), all_dead(3, 3));
}

#[test]
fn live_cell_with_one_neighbor_dies() {
    let g = with_alive(all_dead(4, 4), &[(1, 1), (1, 2)]);
    let next = transition(g);
    assert_eq!(next[1][1], 0);
    assert_eq!(next[1][2], 0);
}

#[test]
fn live_cell_with_two_neighbors_survives() {
    // The center of a three-in-a-row has two live neighbors.
    let g = with_alive(all_dead(5, 5), &[(2, 1), (2, 2), (2, 3)]);
    let next = transition(g);
    assert_eq!(next[2][2], 1);
}

#[test]
fn live_cell_with_three_neighbors_survives() {
    // Every cell of a 2x2 block has exactly three live neighbors.
    let g = with_alive(all_dead(4, 4), &[(1, 1), (1, 2), (2, 1), (2, 2)]);
    let next = transition(g);
    assert_eq!(next[1][1], 1);
}

#[test]
fn live_cell_with_four_neighbors_dies() {
    // The center of a plus sign has four live neighbors.
    let g = with_alive(all_dead(5, 5), &[(2, 2), (1, 2), (3, 2), (2, 1), (2, 3)]);
    let next = transition(g);
    assert_eq!(next[2][2], 0);
}

#[test]
fn dead_cell_with_three_neighbors_is_born() {
    // The cells above and below the ends of a three-in-a-row see three.
    let g = with_alive(all_dead(5, 5), &[(2, 1), (2, 2), (2, 3)]);
    let next = transition(g);
    assert_eq!(next[1][2], 1);
    assert_eq!(next[3][2], 1);
}

#[test]
fn dead_cell_with_two_neighbors_stays_dead() {
    let g = with_alive(all_dead(4, 4), &[(0, 0), (0, 2)]);
    let next = transition(g);
    assert_eq!(next[0][1], 0);
}

#[test]
fn lone_center_cell_leaves_grid_all_dead() {
    // Simultaneity: no neighbor of the single live cell can reach a
    // count of three from one source, and the cell itself has zero.
    let g = with_alive(all_dead(3, 3), &[(1, 1)]);
    assert_eq!(transition(g), all_dead(3, 3));
}

#[test]
fn block_is_a_fixed_point() {
    let block = with_alive(all_dead(4, 4), &[(1, 1), (1, 2), (2, 1), (2, 2)]);
    assert_eq!(transition(block.clone()), block);
}

#[test]
fn blinker_oscillates_with_period_two() {
    let blinker = with_alive(all_dead(5, 5), &[(2, 1), (2, 2), (2, 3)]);
    let once = transition(blinker.clone());
    assert_ne!(once, blinker);
    assert_eq!(transition(once), blinker);
}

#[test]
fn transition_leaves_the_callers_copy_alone() {
    let g = with_alive(all_dead(5, 5), &[(2, 1), (2, 2), (2, 3)]);
    let before = g.clone();
    let _next = transition(g);
    assert_eq!(before, with_alive(all_dead(5, 5), &[(2, 1), (2, 2), (2, 3)]));
}

#[test]
fn pentadecathlon_returns_after_fifteen_steps() {
    let seed = with_alive(
        all_dead(19, 20),
        &[
            (8, 7),
            (8, 12),
            (9, 5),
            (9, 6),
            (9, 8),
            (9, 9),
            (9, 10),
            (9, 11),
            (9, 13),
            (9, 14),
            (10, 7),
            (10, 12),
        ],
    );
    let mut g = seed.clone();
    for step in 0..15 {
        g = transition(g);
        if step < 14 {
            assert_ne!(g, seed);
        }
    }
    assert_eq!(g, seed);
}

#[test]
fn render_draws_glyphs_and_newlines() {
    let g = with_alive(all_dead(2, 2), &[(0, 0), (1, 1)]);
    assert_eq!(render(&g), "+   \n  + \n");
}

#[test]
fn render_of_empty_grid_is_empty() {
    let g: Vec<Vec<i8>> = Vec::new();
    assert_eq!(render(&g), "");
}
