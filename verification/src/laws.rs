//! Global properties of the generation rule, stated and proved over the
//! model in [`crate::rules`].

use vstd::prelude::*;

use crate::cell::CellState;
use crate::rules::{
    advance, all_dead, births, births_in_row, births_through_row, deaths, deaths_in_row,
    deaths_through_row, is_birth, is_death, neighbor_count, next_board, next_cell, set_cell,
    square,
};

verus! {

/// Effect of a single seed write: the written cell holds exactly the written
/// state, every other cell is untouched, and the board stays square.
pub proof fn lemma_set_cell_effect(b: Seq<Seq<CellState>>, n: int, i: int, j: int, s: CellState)
    requires
        square(b, n),
        0 <= i < n,
        0 <= j < n,
    ensures
        square(set_cell(b, i, j, s), n),
        set_cell(b, i, j, s)[i][j] == s,
        forall|r: int, c: int|
            0 <= r < n && 0 <= c < n && (r != i || c != j) ==> set_cell(b, i, j, s)[r][c] == b[r][
                c
            ],
{
    assert forall|r: int| 0 <= r < n implies (#[trigger] set_cell(b, i, j, s)[r]).len() == n by {
        assert(b[r].len() == n);
    }
}

/// Seeding round-trips: setting a cell Alive and then reading it gives
/// Alive, and setting the same cell back Dead and reading it gives Dead.
pub proof fn lemma_set_then_get(b: Seq<Seq<CellState>>, n: int, i: int, j: int)
    requires
        square(b, n),
        0 <= i < n,
        0 <= j < n,
    ensures
        set_cell(b, i, j, CellState::Alive)[i][j] is Alive,
        set_cell(set_cell(b, i, j, CellState::Alive), i, j, CellState::Dead)[i][j] is Dead,
{
    lemma_set_cell_effect(b, n, i, j, CellState::Alive);
    lemma_set_cell_effect(set_cell(b, i, j, CellState::Alive), n, i, j, CellState::Dead);
}

/// The board holds exactly a 2x2 block of live cells whose top-left corner is
/// `(r, c)`; everything else is dead.
pub open spec fn block_at(b: Seq<Seq<CellState>>, n: int, r: int, c: int) -> bool {
    forall|i: int, j: int|
        0 <= i < n && 0 <= j < n ==> ((#[trigger] b[i][j]) is Alive <==> ((i == r || i == r + 1)
            && (j == c || j == c + 1)))
}

/// A 2x2 block is a still life: each of its four cells has exactly 3 live
/// neighbors and survives, and every adjacent dead cell has at most 2, so one
/// generation leaves the board unchanged.
pub proof fn lemma_block_still(b: Seq<Seq<CellState>>, n: int, r: int, c: int)
    requires
        square(b, n),
        0 <= r,
        r + 1 < n,
        0 <= c,
        c + 1 < n,
        block_at(b, n, r, c),
    ensures
        next_board(b, n) == b,
{
    assert forall|i: int, j: int| 0 <= i < n && 0 <= j < n implies next_cell(b, n, i, j) == b[i][
        j
    ] by {
    }
    assert forall|i: int| 0 <= i < n implies next_board(b, n)[i] == b[i] by {
        assert(b[i].len() == n);
        assert(next_board(b, n)[i] =~= b[i]);
    }
    assert(next_board(b, n) =~= b);
}

/// A 2x2 block is unchanged after any number of generations.
pub proof fn lemma_block_still_forever(b: Seq<Seq<CellState>>, n: int, r: int, c: int, k: nat)
    requires
        square(b, n),
        0 <= r,
        r + 1 < n,
        0 <= c,
        c + 1 < n,
        block_at(b, n, r, c),
    ensures
        advance(b, n, k) == b,
    decreases k,
{
    if k > 0 {
        lemma_block_still_forever(b, n, r, c, (k - 1) as nat);
        lemma_block_still(b, n, r, c);
    }
}

/// A row prefix with no birth in it counts zero births.
proof fn lemma_births_in_row_zero(b: Seq<Seq<CellState>>, n: int, i: int, j: int)
    requires
        0 <= j,
        forall|c: int| 0 <= c < j ==> !is_birth(b, n, i, c),
    ensures
        births_in_row(b, n, i, j) == 0,
    decreases j,
{
    if j > 0 {
        lemma_births_in_row_zero(b, n, i, j - 1);
    }
}

/// Rows with no birth anywhere count zero births.
proof fn lemma_births_through_row_zero(b: Seq<Seq<CellState>>, n: int, i: int)
    requires
        0 <= i,
        0 <= n,
        forall|r: int, c: int| 0 <= r < i && 0 <= c < n ==> !is_birth(b, n, r, c),
    ensures
        births_through_row(b, n, i) == 0,
    decreases i,
{
    if i > 0 {
        lemma_births_through_row_zero(b, n, i - 1);
        lemma_births_in_row_zero(b, n, i - 1, n);
    }
}

/// A row prefix with no death in it counts zero deaths.
proof fn lemma_deaths_in_row_zero(b: Seq<Seq<CellState>>, n: int, i: int, j: int)
    requires
        0 <= j,
        forall|c: int| 0 <= c < j ==> !is_death(b, n, i, c),
    ensures
        deaths_in_row(b, n, i, j) == 0,
    decreases j,
{
    if j > 0 {
        lemma_deaths_in_row_zero(b, n, i, j - 1);
    }
}

/// Rows with no death anywhere count zero deaths.
proof fn lemma_deaths_through_row_zero(b: Seq<Seq<CellState>>, n: int, i: int)
    requires
        0 <= i,
        0 <= n,
        forall|r: int, c: int| 0 <= r < i && 0 <= c < n ==> !is_death(b, n, r, c),
    ensures
        deaths_through_row(b, n, i) == 0,
    decreases i,
{
    if i > 0 {
        lemma_deaths_through_row_zero(b, n, i - 1);
        lemma_deaths_in_row_zero(b, n, i - 1, n);
    }
}

/// One generation of an all-dead board: a dead cell has no live neighbor, so
/// it stays dead, and no cell transitions in either direction; the engine's
/// counters therefore keep their values across such a step.
pub proof fn lemma_all_dead_step(b: Seq<Seq<CellState>>, n: int)
    requires
        0 <= n,
        square(b, n),
        all_dead(b, n),
    ensures
        next_board(b, n) == b,
        births(b, n) == 0,
        deaths(b, n) == 0,
{
    assert forall|i: int, j: int| 0 <= i < n && 0 <= j < n implies next_cell(b, n, i, j) == b[i][
        j
    ] && !is_birth(b, n, i, j) && !is_death(b, n, i, j) by {
        assert(neighbor_count(b, n, i, j) == 0);
    }
    assert forall|i: int| 0 <= i < n implies next_board(b, n)[i] == b[i] by {
        assert(b[i].len() == n);
        assert(next_board(b, n)[i] =~= b[i]);
    }
    assert(next_board(b, n) =~= b);
    lemma_births_through_row_zero(b, n, n);
    lemma_deaths_through_row_zero(b, n, n);
}

/// An all-dead board stays all-dead for any number of generations, and every
/// one of those generations has zero births and zero deaths, so neither
/// counter ever moves from its starting value.
pub proof fn lemma_all_dead_forever(b: Seq<Seq<CellState>>, n: int, k: nat)
    requires
        0 <= n,
        square(b, n),
        all_dead(b, n),
    ensures
        advance(b, n, k) == b,
        births(advance(b, n, k), n) == 0,
        deaths(advance(b, n, k), n) == 0,
    decreases k,
{
    lemma_all_dead_step(b, n);
    if k > 0 {
        lemma_all_dead_forever(b, n, (k - 1) as nat);
    }
}

} // verus!
