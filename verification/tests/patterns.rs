use game_of_life::{CellState, Game};

fn alive_cells(g: &Game) -> Vec<(usize, usize)> {
    let n = g.size();
    let mut out = Vec::new();
    for i in 0..n {
        for j in 0..n {
            if g.get_state(i, j) == CellState::Alive {
                out.push((i, j));
            }
        }
    }
    out
}

#[test]
fn block_is_a_still_life() {
    let mut g = Game::new(4);
    g.set_cell_states(vec![(1, 1), (1, 2), (2, 1), (2, 2)], CellState::Alive);
    for _ in 0..6 {
        g.step();
        assert_eq!(alive_cells(&g), vec![(1, 1), (1, 2), (2, 1), (2, 2)]);
    }
    assert_eq!(g.rounds(), 6);
    assert_eq!(g.alive(), 0);
    assert_eq!(g.dead(), 16);
}

#[test]
fn glider_translates_by_one_one_after_four_steps() {
    let mut g = Game::new(20);
    let seed = vec![(0, 1), (1, 2), (2, 0), (2, 1), (2, 2)];
    g.set_cell_states(seed.clone(), CellState::Alive);
    for _ in 0..4 {
        g.step();
        assert_eq!(alive_cells(&g).len(), 5);
    }
    let expected: Vec<(usize, usize)> = seed.iter().map(|&(i, j)| (i + 1, j + 1)).collect();
    let mut expected_sorted = expected.clone();
    expected_sorted.sort();
    assert_eq!(alive_cells(&g), expected_sorted);
}

#[test]
fn blinker_oscillates_and_counts_transitions() {
    let mut g = Game::new(5);
    g.set_cell_states(vec![(1, 2), (2, 2), (3, 2)], CellState::Alive);
    g.step();
    assert_eq!(alive_cells(&g), vec![(2, 1), (2, 2), (2, 3)]);
    assert_eq!(g.alive(), 2);
    assert_eq!(g.dead(), 27);
    g.step();
    assert_eq!(alive_cells(&g), vec![(1, 2), (2, 2), (3, 2)]);
    assert_eq!(g.alive(), 4);
    assert_eq!(g.dead(), 29);
}

#[test]
fn overcrowding_kills_center_and_edges() {
    // A 3x3 all-alive board: the center has 8 neighbors and dies, the edge
    // cells have 5 and die, the corners have 3 and survive; no dead cells
    // exist to be born.
    let mut g = Game::new(3);
    let mut seed = Vec::new();
    for i in 0..3 {
        for j in 0..3 {
            seed.push((i, j));
        }
    }
    g.set_cell_states(seed, CellState::Alive);
    g.step();
    assert_eq!(alive_cells(&g), vec![(0, 0), (0, 2), (2, 0), (2, 2)]);
    assert_eq!(g.alive(), 0);
    assert_eq!(g.dead(), 9 + 5);
}
