//! A verified engine for Conway's Game of Life on a fixed-size square grid.
//!
//! The engine holds the current generation of an `N x N` board of cells,
//! advances it one generation at a time under the standard B3/S23 rule with
//! non-wrapping edges, and tracks cumulative transition counters alongside a
//! round count.  The mathematical model of the board and of the rule lives in
//! [`rules`]; the executable engine in [`engine`] is proved against it, and
//! [`laws`] states and proves the global properties of the rule itself.

pub mod cell;
pub mod engine;
pub mod laws;
pub mod rules;

pub use cell::CellState;
pub use engine::Game;
