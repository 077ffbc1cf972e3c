//! The mathematical model of the board and of the generation rule.
//!
//! A board is modelled as a sequence of rows, each a sequence of cells.  The
//! functions here say what one generation step produces (`next_board`), how
//! many cells transition into each state during that step (`births`,
//! `deaths`), and what seeding a board cell by cell means (`set_cell`,
//! `set_cells`).  The executable engine's contracts are stated over these
//! functions.

use vstd::prelude::*;

use crate::cell::CellState;

verus! {

/// A board is square with side `n`: `n` rows of `n` cells each.
pub open spec fn square(b: Seq<Seq<CellState>>, n: int) -> bool {
    &&& b.len() == n
    &&& forall|i: int| 0 <= i < n ==> (#[trigger] b[i]).len() == n
}

/// 1 when `(i, j)` lies on the board and holds a live cell, 0 otherwise.
/// Positions outside `[0, n)` contribute 0: the board does not wrap.
pub open spec fn alive_at(b: Seq<Seq<CellState>>, n: int, i: int, j: int) -> int {
    if 0 <= i < n && 0 <= j < n && b[i][j] is Alive {
        1
    } else {
        0
    }
}

/// Number of live cells among the Moore neighbors of `(i, j)`: the 3x3 block
/// centered on `(i, j)` without `(i, j)` itself.  Neighbors that fall off the
/// edge of the board are excluded, so border cells have fewer than 8.
pub open spec fn neighbor_count(b: Seq<Seq<CellState>>, n: int, i: int, j: int) -> int {
    alive_at(b, n, i - 1, j - 1) + alive_at(b, n, i - 1, j) + alive_at(b, n, i - 1, j + 1)
        + alive_at(b, n, i, j - 1) + alive_at(b, n, i, j + 1) + alive_at(b, n, i + 1, j - 1)
        + alive_at(b, n, i + 1, j) + alive_at(b, n, i + 1, j + 1)
}

/// The B3/S23 rule for one cell: a live cell survives with 2 or 3 live
/// neighbors and dies otherwise; a dead cell is born with exactly 3 live
/// neighbors and stays dead otherwise.
pub open spec fn next_state(cur: CellState, neighbors: int) -> CellState {
    match cur {
        CellState::Alive => if neighbors == 2 || neighbors == 3 {
            CellState::Alive
        } else {
            CellState::Dead
        },
        CellState::Dead => if neighbors == 3 {
            CellState::Alive
        } else {
            CellState::Dead
        },
    }
}

/// The state that cell `(i, j)` takes in the next generation of `b`.
pub open spec fn next_cell(b: Seq<Seq<CellState>>, n: int, i: int, j: int) -> CellState {
    next_state(b[i][j], neighbor_count(b, n, i, j))
}

/// The whole next generation: every cell advanced simultaneously, each from
/// the neighbor counts of the same prior board `b`.
pub open spec fn next_board(b: Seq<Seq<CellState>>, n: int) -> Seq<Seq<CellState>> {
    Seq::new(n as nat, |i: int| Seq::new(n as nat, |j: int| next_cell(b, n, i, j)))
}

/// Cell `(i, j)` transitions into Alive this generation.
pub open spec fn is_birth(b: Seq<Seq<CellState>>, n: int, i: int, j: int) -> bool {
    b[i][j] is Dead && next_cell(b, n, i, j) is Alive
}

/// Cell `(i, j)` transitions into Dead this generation.
pub open spec fn is_death(b: Seq<Seq<CellState>>, n: int, i: int, j: int) -> bool {
    b[i][j] is Alive && next_cell(b, n, i, j) is Dead
}

/// Number of births among the first `j` cells of row `i`.
pub open spec fn births_in_row(b: Seq<Seq<CellState>>, n: int, i: int, j: int) -> int
    decreases j,
{
    if j <= 0 {
        0
    } else {
        births_in_row(b, n, i, j - 1) + if is_birth(b, n, i, j - 1) {
            1int
        } else {
            0
        }
    }
}

/// Number of births in the first `i` full rows.
pub open spec fn births_through_row(b: Seq<Seq<CellState>>, n: int, i: int) -> int
    decreases i,
{
    if i <= 0 {
        0
    } else {
        births_through_row(b, n, i - 1) + births_in_row(b, n, i - 1, n)
    }
}

/// Number of cells of `b` that transition into Alive this generation.
pub open spec fn births(b: Seq<Seq<CellState>>, n: int) -> int {
    births_through_row(b, n, n)
}

/// Number of deaths among the first `j` cells of row `i`.
pub open spec fn deaths_in_row(b: Seq<Seq<CellState>>, n: int, i: int, j: int) -> int
    decreases j,
{
    if j <= 0 {
        0
    } else {
        deaths_in_row(b, n, i, j - 1) + if is_death(b, n, i, j - 1) {
            1int
        } else {
            0
        }
    }
}

/// Number of deaths in the first `i` full rows.
pub open spec fn deaths_through_row(b: Seq<Seq<CellState>>, n: int, i: int) -> int
    decreases i,
{
    if i <= 0 {
        0
    } else {
        deaths_through_row(b, n, i - 1) + deaths_in_row(b, n, i - 1, n)
    }
}

/// Number of cells of `b` that transition into Dead this generation.
pub open spec fn deaths(b: Seq<Seq<CellState>>, n: int) -> int {
    deaths_through_row(b, n, n)
}

/// `b` with the single cell `(i, j)` set to `s`.
pub open spec fn set_cell(b: Seq<Seq<CellState>>, i: int, j: int, s: CellState) -> Seq<
    Seq<CellState>,
> {
    b.update(i, b[i].update(j, s))
}

/// `b` with every listed cell set to `s`, applied in sequence order
/// (last write wins if a coordinate repeats).
pub open spec fn set_cells(b: Seq<Seq<CellState>>, cells: Seq<(usize, usize)>, s: CellState) -> Seq<
    Seq<CellState>,
>
    decreases cells.len(),
{
    if cells.len() == 0 {
        b
    } else {
        set_cells(set_cell(b, cells[0].0 as int, cells[0].1 as int, s), cells.drop_first(), s)
    }
}

/// Every cell of the board is dead.
pub open spec fn all_dead(b: Seq<Seq<CellState>>, n: int) -> bool {
    forall|i: int, j: int| 0 <= i < n && 0 <= j < n ==> (#[trigger] b[i][j]) is Dead
}

/// The board after `k` generation steps.
pub open spec fn advance(b: Seq<Seq<CellState>>, n: int, k: nat) -> Seq<Seq<CellState>>
    decreases k,
{
    if k == 0 {
        b
    } else {
        next_board(advance(b, n, (k - 1) as nat), n)
    }
}

/// Within one row, the birth count of a longer prefix is at least that of a
/// shorter one.
pub proof fn lemma_births_in_row_mono(b: Seq<Seq<CellState>>, n: int, i: int, j1: int, j2: int)
    requires
        0 <= j1 <= j2,
    ensures
        births_in_row(b, n, i, j1) <= births_in_row(b, n, i, j2),
    decreases j2,
{
    if j1 < j2 {
        lemma_births_in_row_mono(b, n, i, j1, j2 - 1);
    }
}

/// Across rows, the birth count over a longer prefix of rows is at least that
/// over a shorter one.
pub proof fn lemma_births_through_row_mono(b: Seq<Seq<CellState>>, n: int, i1: int, i2: int)
    requires
        0 <= i1 <= i2,
        n >= 0,
    ensures
        births_through_row(b, n, i1) <= births_through_row(b, n, i2),
    decreases i2,
{
    if i1 < i2 {
        lemma_births_through_row_mono(b, n, i1, i2 - 1);
        lemma_births_in_row_mono(b, n, i2 - 1, 0, n);
    }
}

/// Within one row, the death count of a longer prefix is at least that of a
/// shorter one.
pub proof fn lemma_deaths_in_row_mono(b: Seq<Seq<CellState>>, n: int, i: int, j1: int, j2: int)
    requires
        0 <= j1 <= j2,
    ensures
        deaths_in_row(b, n, i, j1) <= deaths_in_row(b, n, i, j2),
    decreases j2,
{
    if j1 < j2 {
        lemma_deaths_in_row_mono(b, n, i, j1, j2 - 1);
    }
}

/// Across rows, the death count over a longer prefix of rows is at least that
/// over a shorter one.
pub proof fn lemma_deaths_through_row_mono(b: Seq<Seq<CellState>>, n: int, i1: int, i2: int)
    requires
        0 <= i1 <= i2,
        n >= 0,
    ensures
        deaths_through_row(b, n, i1) <= deaths_through_row(b, n, i2),
    decreases i2,
{
    if i1 < i2 {
        lemma_deaths_through_row_mono(b, n, i1, i2 - 1);
        lemma_deaths_in_row_mono(b, n, i2 - 1, 0, n);
    }
}

/// The birth count of a row prefix never exceeds the prefix length.
proof fn lemma_births_in_row_le(b: Seq<Seq<CellState>>, n: int, i: int, j: int)
    requires
        0 <= j,
    ensures
        0 <= births_in_row(b, n, i, j) <= j,
    decreases j,
{
    if j > 0 {
        lemma_births_in_row_le(b, n, i, j - 1);
    }
}

/// The birth count of a prefix of rows never exceeds its cell count.
proof fn lemma_births_through_row_le(b: Seq<Seq<CellState>>, n: int, i: int)
    requires
        0 <= i,
        0 <= n,
    ensures
        0 <= births_through_row(b, n, i) <= i * n,
    decreases i,
{
    if i > 0 {
        lemma_births_through_row_le(b, n, i - 1);
        lemma_births_in_row_le(b, n, i - 1, n);
        assert((i - 1) * n + n == i * n) by (nonlinear_arith);
    }
}

/// At most one birth per cell: the per-generation growth of the `alive`
/// counter is bounded by the cell count, which lets a caller discharge the
/// arithmetic precondition of a generation advance from the board size alone.
pub proof fn lemma_births_le_area(b: Seq<Seq<CellState>>, n: int)
    requires
        0 <= n,
    ensures
        0 <= births(b, n) <= n * n,
{
    lemma_births_through_row_le(b, n, n);
}

/// The death count of a row prefix never exceeds the prefix length.
proof fn lemma_deaths_in_row_le(b: Seq<Seq<CellState>>, n: int, i: int, j: int)
    requires
        0 <= j,
    ensures
        0 <= deaths_in_row(b, n, i, j) <= j,
    decreases j,
{
    if j > 0 {
        lemma_deaths_in_row_le(b, n, i, j - 1);
    }
}

/// The death count of a prefix of rows never exceeds its cell count.
proof fn lemma_deaths_through_row_le(b: Seq<Seq<CellState>>, n: int, i: int)
    requires
        0 <= i,
        0 <= n,
    ensures
        0 <= deaths_through_row(b, n, i) <= i * n,
    decreases i,
{
    if i > 0 {
        lemma_deaths_through_row_le(b, n, i - 1);
        lemma_deaths_in_row_le(b, n, i - 1, n);
        assert((i - 1) * n + n == i * n) by (nonlinear_arith);
    }
}

/// At most one death per cell: the per-generation growth of the `dead`
/// counter is bounded by the cell count, which lets a caller discharge the
/// arithmetic precondition of a generation advance from the board size alone.
pub proof fn lemma_deaths_le_area(b: Seq<Seq<CellState>>, n: int)
    requires
        0 <= n,
    ensures
        0 <= deaths(b, n) <= n * n,
{
    lemma_deaths_through_row_le(b, n, n);
}

} // verus!
