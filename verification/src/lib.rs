//! Core simulation of a falling-block puzzle game: the board grid, the seven
//! piece shapes, rotation, collision checking, locking, and line clearing.
//!
//! The library is organised as follows:
//! - [`shape`]: the seven tetromino kinds, their colors, block offsets, and
//!   the rotation arithmetic that turns an anchor and an orientation into the
//!   four occupied board cells;
//! - [`board`]: the grid of locked cells, locking a piece, and the full-line
//!   scan-and-clear pass;
//! - [`game`]: the driver state machine reacting to discrete actions;
//! - [`laws`]: proofs of global properties of the simulation;
//! - [`gfx_kinds`]: plain enumerations describing resource kinds of a
//!   rendering collaborator (the core never touches drawing resources).

use vstd::prelude::*;

pub mod board;
pub mod game;
pub mod gfx_kinds;
pub mod laws;
pub mod rng;
pub mod shape;

verus! {

/// Number of cells along the lateral axis (the width of the board).
pub const ROWS: usize = 10;

/// Number of cells along the gravity axis (the height of the board).
pub const COLUMNS: usize = 20;

/// A sequence of machine-integer coordinate pairs seen as mathematical pairs.
pub open spec fn pairs_view(s: Seq<(i32, i32)>) -> Seq<(int, int)> {
    s.map_values(|p: (i32, i32)| (p.0 as int, p.1 as int))
}

} // verus!
