//! The state of a single cell of the board.

use vstd::prelude::*;

verus! {

/// A cell is always exactly one of alive or dead; there is no other state.
#[derive(Copy, Clone, Debug, PartialEq, Eq, Structural)]
pub enum CellState {
    Alive,
    Dead,
}

impl CellState {
    /// True exactly when the cell is alive.
    pub fn is_alive(&self) -> (r: bool)
        ensures
            r == (*self is Alive),
    {
        match self {
            CellState::Alive => true,
            CellState::Dead => false,
        }
    }
}

} // verus!
