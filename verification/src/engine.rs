//! The executable simulation engine, proved against the model in
//! [`crate::rules`].

use vstd::prelude::*;
use vstd::pervasive::VecAdditionalExecFns;

use crate::cell::CellState;
use crate::rules::{
    all_dead, births, births_in_row, births_through_row, deaths, deaths_in_row,
    deaths_through_row, lemma_births_in_row_mono, lemma_births_through_row_mono,
    lemma_deaths_in_row_mono, lemma_deaths_through_row_mono, neighbor_count, next_board,
    next_cell, next_state, set_cell, set_cells, square,
};

verus! {

/// The abstraction of a stack of rows: each `Vec` row as the sequence of its
/// cells.
pub open spec fn view_of(rows: Seq<Vec<CellState>>) -> Seq<Seq<CellState>> {
    Seq::new(rows.len(), |i: int| rows[i]@)
}

/// A freshly built all-dead row of `n` cells.
fn new_row(n: usize) -> (r: Vec<CellState>)
    ensures
        r@.len() == n,
        forall|j: int| 0 <= j < n ==> r@[j] is Dead,
{
    let mut r: Vec<CellState> = Vec::new();
    let mut j: usize = 0;
    while j < n
        invariant
            j <= n,
            r@.len() == j,
            forall|t: int| 0 <= t < j ==> r@[t] is Dead,
        decreases n - j,
    {
        r.push(CellState::Dead);
        j = j + 1;
    }
    r
}

/// A freshly built all-dead square board of side `n`.
fn new_board(n: usize) -> (b: Vec<Vec<CellState>>)
    ensures
        square(view_of(b@), n as int),
        all_dead(view_of(b@), n as int),
{
    let mut b: Vec<Vec<CellState>> = Vec::new();
    let mut i: usize = 0;
    while i < n
        invariant
            i <= n,
            b@.len() == i,
            forall|r: int| 0 <= r < i ==> (#[trigger] b@[r])@.len() == n,
            forall|r: int, c: int| 0 <= r < i && 0 <= c < n ==> (#[trigger] b@[r]@[c]) is Dead,
        decreases n - i,
    {
        let row = new_row(n);
        b.push(row);
        i = i + 1;
    }
    b
}

/// Writes `state` into cell `(i, j)` of a board held as a vector of rows.
fn write_board_cell(b: &mut Vec<Vec<CellState>>, i: usize, j: usize, state: CellState)
    requires
        i < old(b)@.len(),
        j < old(b)@[i as int]@.len(),
    ensures
        view_of(final(b)@) == set_cell(view_of(old(b)@), i as int, j as int, state),
        final(b)@.len() == old(b)@.len(),
{
    let mut row: Vec<CellState> = Vec::new();
    b.set_and_swap(i, &mut row);
    row.set(j, state);
    b.set(i, row);
    proof {
        assert(view_of(b@) =~= set_cell(view_of(old(b)@), i as int, j as int, state));
    }
}

/// The simulation state: the externally visible generation in `board`, the
/// write target for the next generation in `board_buf`, the number of
/// completed generation advances in `rounds`, and the cumulative counts of
/// cells that transitioned into each state in `alive` and `dead`.
pub struct Game {
    board: Vec<Vec<CellState>>,
    board_buf: Vec<Vec<CellState>>,
    rounds: usize,
    alive: usize,
    dead: usize,
}

impl Game {
    /// The current generation, as a sequence of rows.
    pub closed spec fn spec_board(&self) -> Seq<Seq<CellState>> {
        view_of(self.board@)
    }

    /// The buffer board: after an advance it holds the prior generation.
    pub closed spec fn spec_buf(&self) -> Seq<Seq<CellState>> {
        view_of(self.board_buf@)
    }

    /// The side length the engine was constructed with.
    pub closed spec fn spec_size(&self) -> int {
        self.board@.len() as int
    }

    /// Number of completed generation advances.
    pub closed spec fn spec_rounds(&self) -> int {
        self.rounds as int
    }

    /// Cumulative count of cells that transitioned into Alive.
    pub closed spec fn spec_alive(&self) -> int {
        self.alive as int
    }

    /// Cumulative count of cells that transitioned into Dead, counted from
    /// `n * n` at construction.
    pub closed spec fn spec_dead(&self) -> int {
        self.dead as int
    }

    /// Both boards are square with the engine's side length.
    pub open spec fn wf(&self) -> bool {
        &&& square(self.spec_board(), self.spec_size())
        &&& square(self.spec_buf(), self.spec_size())
    }

    /// Builds an engine of side `size`: every cell of both boards dead, no
    /// rounds played, `alive` at zero and `dead` at the full cell count.
    pub fn new(size: usize) -> (g: Game)
        requires
            size * size <= usize::MAX,
        ensures
            g.wf(),
            g.spec_size() == size,
            all_dead(g.spec_board(), size as int),
            all_dead(g.spec_buf(), size as int),
            g.spec_rounds() == 0,
            g.spec_alive() == 0,
            g.spec_dead() == size * size,
    {
        Game {
            board: new_board(size),
            board_buf: new_board(size),
            rounds: 0,
            alive: 0,
            dead: size * size,
        }
    }

    /// The state of cell `(i, j)` of the current generation.
    pub fn get_state(&self, i: usize, j: usize) -> (s: CellState)
        requires
            self.wf(),
            i < self.spec_size(),
            j < self.spec_size(),
        ensures
            s == self.spec_board()[i as int][j as int],
    {
        self.board[i][j]
    }

    /// Writes `state` directly into cell `(i, j)` of the current generation;
    /// used for seeding a pattern before the simulation runs.
    pub fn set_cell_state(&mut self, i: usize, j: usize, state: CellState)
        requires
            old(self).wf(),
            i < old(self).spec_size(),
            j < old(self).spec_size(),
        ensures
            final(self).wf(),
            final(self).spec_size() == old(self).spec_size(),
            final(self).spec_board() == set_cell(old(self).spec_board(), i as int, j as int, state),
            final(self).spec_buf() == old(self).spec_buf(),
            final(self).spec_rounds() == old(self).spec_rounds(),
            final(self).spec_alive() == old(self).spec_alive(),
            final(self).spec_dead() == old(self).spec_dead(),
    {
        write_board_cell(&mut self.board, i, j, state);
    }

    /// Writes `state` into every listed cell of the current generation, in
    /// sequence order; used for seeding a whole pattern at once.
    pub fn set_cell_states(&mut self, cells: Vec<(usize, usize)>, state: CellState)
        requires
            old(self).wf(),
            forall|k: int|
                0 <= k < cells@.len() ==> (#[trigger] cells@[k]).0 < old(self).spec_size()
                    && cells@[k].1 < old(self).spec_size(),
        ensures
            final(self).wf(),
            final(self).spec_size() == old(self).spec_size(),
            final(self).spec_board() == set_cells(old(self).spec_board(), cells@, state),
            final(self).spec_buf() == old(self).spec_buf(),
            final(self).spec_rounds() == old(self).spec_rounds(),
            final(self).spec_alive() == old(self).spec_alive(),
            final(self).spec_dead() == old(self).spec_dead(),
    {
        let ghost b0 = self.spec_board();
        let len = cells.len();
        let mut k: usize = 0;
        proof {
            assert(cells@.skip(0) =~= cells@);
        }
        while k < len
            invariant
                k <= len,
                len == cells@.len(),
                self.wf(),
                self.spec_size() == old(self).spec_size(),
                forall|t: int|
                    0 <= t < cells@.len() ==> (#[trigger] cells@[t]).0 < self.spec_size()
                        && cells@[t].1 < self.spec_size(),
                set_cells(self.spec_board(), cells@.skip(k as int), state) == set_cells(
                    b0,
                    cells@,
                    state,
                ),
                self.spec_buf() == old(self).spec_buf(),
                self.spec_rounds() == old(self).spec_rounds(),
                self.spec_alive() == old(self).spec_alive(),
                self.spec_dead() == old(self).spec_dead(),
            decreases len - k,
        {
            let ghost before = self.spec_board();
            let (ci, cj) = cells[k];
            self.set_cell_state(ci, cj, state);
            proof {
                assert(cells@.skip(k as int)[0] == cells@[k as int]);
                assert(cells@.skip(k as int).drop_first() =~= cells@.skip(k as int + 1));
                assert(set_cells(before, cells@.skip(k as int), state) == set_cells(
                    self.spec_board(),
                    cells@.skip(k as int + 1),
                    state,
                ));
            }
            k = k + 1;
        }
        proof {
            assert(cells@.skip(len as int) =~= Seq::<(usize, usize)>::empty());
            assert(set_cells(self.spec_board(), cells@.skip(len as int), state)
                == self.spec_board());
        }
    }

    /// Number of completed generation advances.
    pub fn rounds(&self) -> (r: usize)
        ensures
            r == self.spec_rounds(),
    {
        self.rounds
    }

    /// Cumulative count of cells that have transitioned into Alive.
    pub fn alive(&self) -> (r: usize)
        ensures
            r == self.spec_alive(),
    {
        self.alive
    }

    /// Cumulative count of cells that have transitioned into Dead, counted
    /// from `n * n` at construction.
    pub fn dead(&self) -> (r: usize)
        ensures
            r == self.spec_dead(),
    {
        self.dead
    }

    /// The side length the engine was constructed with.
    pub fn size(&self) -> (r: usize)
        ensures
            r == self.spec_size(),
    {
        self.board.len()
    }

    /// Counts the live cells among the up-to-8 Moore neighbors of `(i, j)` on
    /// `board`; offsets that fall off the edge are skipped, never wrapped.
    pub fn living_neighbors(board: &Vec<Vec<CellState>>, i: usize, j: usize) -> (cnt: usize)
        requires
            square(view_of(board@), board@.len() as int),
            i < board@.len(),
            j < board@.len(),
        ensures
            cnt == neighbor_count(view_of(board@), board@.len() as int, i as int, j as int),
    {
        let n = board.len();
        let mut cnt: usize = 0;
        if i > 0 {
            let row = &board[i - 1];
            proof {
                assert(row@ == view_of(board@)[i as int - 1]);
                assert(row@.len() == n);
            }
            if j > 0 && row[j - 1].is_alive() {
                cnt = cnt + 1;
            }
            if row[j].is_alive() {
                cnt = cnt + 1;
            }
            if j + 1 < n && row[j + 1].is_alive() {
                cnt = cnt + 1;
            }
        }
        let row = &board[i];
        proof {
            assert(row@ == view_of(board@)[i as int]);
            assert(row@.len() == n);
        }
        if j > 0 && row[j - 1].is_alive() {
            cnt = cnt + 1;
        }
        if j + 1 < n && row[j + 1].is_alive() {
            cnt = cnt + 1;
        }
        if i + 1 < n {
            let row = &board[i + 1];
            proof {
                assert(row@ == view_of(board@)[i as int + 1]);
                assert(row@.len() == n);
            }
            if j > 0 && row[j - 1].is_alive() {
                cnt = cnt + 1;
            }
            if row[j].is_alive() {
                cnt = cnt + 1;
            }
            if j + 1 < n && row[j + 1].is_alive() {
                cnt = cnt + 1;
            }
        }
        cnt
    }

    /// Applies the rule to cell `(i, j)`: writes the cell's next state into
    /// the buffer board and bumps the matching transition counter, leaving the
    /// current board untouched.
    pub fn update_cell(game: &mut Game, neighbors: usize, i: usize, j: usize)
        requires
            old(game).wf(),
            i < old(game).spec_size(),
            j < old(game).spec_size(),
            old(game).spec_board()[i as int][j as int] is Dead
                && next_state(old(game).spec_board()[i as int][j as int], neighbors as int)
                is Alive ==> old(game).spec_alive() < usize::MAX,
            old(game).spec_board()[i as int][j as int] is Alive
                && next_state(old(game).spec_board()[i as int][j as int], neighbors as int)
                is Dead ==> old(game).spec_dead() < usize::MAX,
        ensures
            final(game).wf(),
            final(game).spec_size() == old(game).spec_size(),
            final(game).spec_board() == old(game).spec_board(),
            final(game).spec_rounds() == old(game).spec_rounds(),
            final(game).spec_buf() == set_cell(
                old(game).spec_buf(),
                i as int,
                j as int,
                next_state(old(game).spec_board()[i as int][j as int], neighbors as int),
            ),
            final(game).spec_alive() == old(game).spec_alive() + if old(game).spec_board()[
                i as int
            ][j as int] is Dead && next_state(
                old(game).spec_board()[i as int][j as int],
                neighbors as int,
            ) is Alive {
                1int
            } else {
                0
            },
            final(game).spec_dead() == old(game).spec_dead() + if old(game).spec_board()[i as int][
                j as int
            ] is Alive && next_state(
                old(game).spec_board()[i as int][j as int],
                neighbors as int,
            ) is Dead {
                1int
            } else {
                0
            },
    {
        match game.get_state(i, j) {
            CellState::Alive => {
                if neighbors == 2 || neighbors == 3 {
                    Game::set_cell_state_buf(game, i, j, CellState::Alive);
                } else {
                    Game::set_cell_state_buf(game, i, j, CellState::Dead);
                    game.dead = game.dead + 1;
                }
            },
            CellState::Dead => {
                if neighbors == 3 {
                    Game::set_cell_state_buf(game, i, j, CellState::Alive);
                    game.alive = game.alive + 1;
                } else {
                    Game::set_cell_state_buf(game, i, j, CellState::Dead);
                }
            },
        }
    }

    /// Advances the simulation one generation.  Every cell's next state is
    /// computed from neighbor counts of the frozen pre-advance board and
    /// written into the buffer; the two boards then swap roles in one O(1)
    /// ownership exchange and the round counter increments.  Afterwards the
    /// current board holds the new generation, the buffer holds the prior
    /// one, and the counters have grown by exactly the number of cells that
    /// transitioned into each state.
    pub fn step(&mut self)
        requires
            old(self).wf(),
            old(self).spec_rounds() < usize::MAX,
            old(self).spec_alive() + births(old(self).spec_board(), old(self).spec_size())
                <= usize::MAX,
            old(self).spec_dead() + deaths(old(self).spec_board(), old(self).spec_size())
                <= usize::MAX,
        ensures
            final(self).wf(),
            final(self).spec_size() == old(self).spec_size(),
            final(self).spec_board() == next_board(old(self).spec_board(), old(self).spec_size()),
            final(self).spec_buf() == old(self).spec_board(),
            final(self).spec_rounds() == old(self).spec_rounds() + 1,
            final(self).spec_alive() == old(self).spec_alive() + births(
                old(self).spec_board(),
                old(self).spec_size(),
            ),
            final(self).spec_dead() == old(self).spec_dead() + deaths(
                old(self).spec_board(),
                old(self).spec_size(),
            ),
    {
        let ghost b0 = self.spec_board();
        let ghost n: int = self.spec_size();
        let ghost a0: int = self.spec_alive();
        let ghost d0: int = self.spec_dead();
        let ghost r0: int = self.spec_rounds();
        let size = self.board.len();
        let mut i: usize = 0;
        while i < size
            invariant
                i <= size,
                n == size as int,
                self.wf(),
                self.spec_size() == n,
                self.spec_board() == b0,
                self.spec_rounds() == r0,
                self.spec_alive() == a0 + births_through_row(b0, n, i as int),
                self.spec_dead() == d0 + deaths_through_row(b0, n, i as int),
                a0 + births(b0, n) <= usize::MAX,
                d0 + deaths(b0, n) <= usize::MAX,
                forall|r: int, c: int|
                    0 <= r < i && 0 <= c < n ==> #[trigger] self.spec_buf()[r][c] == next_cell(
                        b0,
                        n,
                        r,
                        c,
                    ),
            decreases size - i,
        {
            let mut j: usize = 0;
            while j < size
                invariant
                    i < size,
                    j <= size,
                    n == size as int,
                    self.wf(),
                    self.spec_size() == n,
                    self.spec_board() == b0,
                    self.spec_rounds() == r0,
                    self.spec_alive() == a0 + births_through_row(b0, n, i as int) + births_in_row(
                        b0,
                        n,
                        i as int,
                        j as int,
                    ),
                    self.spec_dead() == d0 + deaths_through_row(b0, n, i as int) + deaths_in_row(
                        b0,
                        n,
                        i as int,
                        j as int,
                    ),
                    a0 + births(b0, n) <= usize::MAX,
                    d0 + deaths(b0, n) <= usize::MAX,
                    forall|r: int, c: int|
                        0 <= r < i && 0 <= c < n ==> #[trigger] self.spec_buf()[r][c] == next_cell(
                            b0,
                            n,
                            r,
                            c,
                        ),
                    forall|c: int|
                        0 <= c < j ==> #[trigger] self.spec_buf()[i as int][c] == next_cell(
                            b0,
                            n,
                            i as int,
                            c,
                        ),
                decreases size - j,
            {
                let neighbors = Game::living_neighbors(&self.board, i, j);
                proof {
                    lemma_births_in_row_mono(b0, n, i as int, j as int + 1, n);
                    lemma_births_through_row_mono(b0, n, i as int + 1, n);
                    lemma_deaths_in_row_mono(b0, n, i as int, j as int + 1, n);
                    lemma_deaths_through_row_mono(b0, n, i as int + 1, n);
                }
                let ghost buf_before = self.spec_buf();
                Game::update_cell(self, neighbors, i, j);
                proof {
                    assert(self.spec_buf() == set_cell(
                        buf_before,
                        i as int,
                        j as int,
                        next_cell(b0, n, i as int, j as int),
                    ));
                    assert forall|r: int, c: int| 0 <= r < i && 0 <= c < n implies #[trigger] self
                        .spec_buf()[r][c] == next_cell(b0, n, r, c) by {
                        assert(self.spec_buf()[r] == buf_before[r]);
                    }
                    assert forall|c: int| 0 <= c < j + 1 implies #[trigger] self.spec_buf()[
                        i as int
                    ][c] == next_cell(b0, n, i as int, c) by {
                        assert(buf_before[i as int].len() == n);
                        assert(self.spec_buf()[i as int] == buf_before[i as int].update(
                            j as int,
                            next_cell(b0, n, i as int, j as int),
                        ));
                    }
                }
                j = j + 1;
            }
            proof {
                assert(births_through_row(b0, n, i as int + 1) == births_through_row(
                    b0,
                    n,
                    i as int,
                ) + births_in_row(b0, n, i as int, n));
                assert(deaths_through_row(b0, n, i as int + 1) == deaths_through_row(
                    b0,
                    n,
                    i as int,
                ) + deaths_in_row(b0, n, i as int, n));
            }
            i = i + 1;
        }
        self.rounds = self.rounds + 1;
        core::mem::swap(&mut self.board, &mut self.board_buf);
        proof {
            let done = self.spec_board();
            assert forall|r: int| 0 <= r < n implies done[r] == next_board(b0, n)[r] by {
                assert(done[r].len() == n);
                assert forall|c: int| 0 <= c < n implies done[r][c] == next_board(b0, n)[r][c] by {
                    assert(done[r][c] == next_cell(b0, n, r, c));
                }
                assert(done[r] =~= next_board(b0, n)[r]);
            }
            assert(self.spec_board() =~= next_board(b0, n));
        }
    }

    /// Writes `state` into cell `(i, j)` of the buffer board.
    pub fn set_cell_state_buf(game: &mut Game, i: usize, j: usize, state: CellState)
        requires
            old(game).wf(),
            i < old(game).spec_size(),
            j < old(game).spec_size(),
        ensures
            final(game).wf(),
            final(game).spec_size() == old(game).spec_size(),
            final(game).spec_buf() == set_cell(old(game).spec_buf(), i as int, j as int, state),
            final(game).spec_board() == old(game).spec_board(),
            final(game).spec_rounds() == old(game).spec_rounds(),
            final(game).spec_alive() == old(game).spec_alive(),
            final(game).spec_dead() == old(game).spec_dead(),
    {
        write_board_cell(&mut game.board_buf, i, j, state);
    }
}

} // verus!
