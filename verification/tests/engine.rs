use game_of_life::{CellState, Game};

#[test]
fn fresh_engine_is_all_dead_with_zeroed_counters() {
    let n: usize = 4;
    let g = Game::new(n);
    assert_eq!(g.size(), n);
    assert_eq!(g.rounds(), 0);
    assert_eq!(g.alive(), 0);
    assert_eq!(g.dead(), n * n);
    for i in 0..n {
        for j in 0..n {
            assert_eq!(g.get_state(i, j), CellState::Dead);
        }
    }
}

#[test]
fn zero_size_engine_is_valid() {
    let mut g = Game::new(0);
    assert_eq!(g.size(), 0);
    assert_eq!(g.alive(), 0);
    assert_eq!(g.dead(), 0);
    g.step();
    assert_eq!(g.rounds(), 1);
    assert_eq!(g.alive(), 0);
    assert_eq!(g.dead(), 0);
}

#[test]
fn set_then_get_round_trips() {
    let mut g = Game::new(3);
    g.set_cell_state(1, 2, CellState::Alive);
    assert_eq!(g.get_state(1, 2), CellState::Alive);
    assert_eq!(g.get_state(2, 1), CellState::Dead);
    g.set_cell_state(1, 2, CellState::Dead);
    assert_eq!(g.get_state(1, 2), CellState::Dead);
}

#[test]
fn batch_seeding_sets_exactly_the_listed_cells() {
    let n: usize = 4;
    let mut g = Game::new(n);
    let seed = vec![(0, 0), (1, 3), (3, 1), (1, 3)];
    g.set_cell_states(seed.clone(), CellState::Alive);
    for i in 0..n {
        for j in 0..n {
            let expect = seed.contains(&(i, j));
            assert_eq!(g.get_state(i, j) == CellState::Alive, expect);
        }
    }
}

#[test]
fn corner_neighbor_counts_on_small_board() {
    let n: usize = 3;
    let dead_board = vec![vec![CellState::Dead; n]; n];
    assert_eq!(Game::living_neighbors(&dead_board, 0, 0), 0);

    let mut board = dead_board.clone();
    board[0][1] = CellState::Alive;
    board[1][0] = CellState::Alive;
    assert_eq!(Game::living_neighbors(&board, 0, 0), 2);
    assert_eq!(Game::living_neighbors(&board, 1, 1), 2);
}

#[test]
fn neighbor_count_excludes_the_cell_itself() {
    let n: usize = 3;
    let mut board = vec![vec![CellState::Dead; n]; n];
    board[1][1] = CellState::Alive;
    assert_eq!(Game::living_neighbors(&board, 1, 1), 0);
    assert_eq!(Game::living_neighbors(&board, 0, 0), 1);
    assert_eq!(Game::living_neighbors(&board, 2, 1), 1);
}

#[test]
fn full_moore_neighborhood_counts_eight() {
    let n: usize = 3;
    let mut board = vec![vec![CellState::Alive; n]; n];
    board[1][1] = CellState::Dead;
    assert_eq!(Game::living_neighbors(&board, 1, 1), 8);
}

#[test]
fn update_cell_writes_buffer_and_counts_a_birth() {
    let mut g = Game::new(2);
    Game::update_cell(&mut g, 3, 0, 0);
    assert_eq!(g.alive(), 1);
    assert_eq!(g.dead(), 4);
    // The current board is untouched until the next swap.
    assert_eq!(g.get_state(0, 0), CellState::Dead);
}

#[test]
fn update_cell_counts_a_death_of_a_lonely_cell() {
    let mut g = Game::new(2);
    g.set_cell_state(0, 0, CellState::Alive);
    Game::update_cell(&mut g, 1, 0, 0);
    assert_eq!(g.alive(), 0);
    assert_eq!(g.dead(), 5);
}

#[test]
fn update_cell_leaves_counters_alone_when_nothing_transitions() {
    let mut g = Game::new(2);
    g.set_cell_state(0, 0, CellState::Alive);
    Game::update_cell(&mut g, 2, 0, 0);
    Game::update_cell(&mut g, 0, 1, 1);
    assert_eq!(g.alive(), 0);
    assert_eq!(g.dead(), 4);
}

#[test]
fn buffer_seeding_does_not_touch_the_visible_board() {
    let mut g = Game::new(2);
    Game::set_cell_state_buf(&mut g, 0, 1, CellState::Alive);
    for i in 0..2 {
        for j in 0..2 {
            assert_eq!(g.get_state(i, j), CellState::Dead);
        }
    }
}

#[test]
fn lonely_cell_dies_after_one_step() {
    let mut g = Game::new(1);
    g.set_cell_state(0, 0, CellState::Alive);
    g.step();
    assert_eq!(g.get_state(0, 0), CellState::Dead);
    assert_eq!(g.rounds(), 1);
    assert_eq!(g.alive(), 0);
    assert_eq!(g.dead(), 2);
}

#[test]
fn rounds_increment_once_per_step_on_an_empty_board() {
    let n: usize = 3;
    let mut g = Game::new(n);
    for expected in 1..=5usize {
        g.step();
        assert_eq!(g.rounds(), expected);
        for i in 0..n {
            for j in 0..n {
                assert_eq!(g.get_state(i, j), CellState::Dead);
            }
        }
        assert_eq!(g.alive(), 0);
        assert_eq!(g.dead(), n * n);
    }
}

#[test]
fn many_steps_on_an_all_dead_board_never_move_the_counters() {
    let n: usize = 5;
    let mut g = Game::new(n);
    for _ in 0..n {
        g.step();
    }
    assert_eq!(g.rounds(), n);
    assert_eq!(g.alive(), 0);
    assert_eq!(g.dead(), n * n);
}
