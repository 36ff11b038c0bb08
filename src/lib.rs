//! Rules engine of a falling-block puzzle game: the settled-cell grid, the
//! falling piece with its moves and rotations, row clearing, scoring and the
//! Playing / GameOver state machine.
use vstd::prelude::*;

pub mod game;
pub mod grid;
pub mod piece;

verus! {

/// Number of columns of the playing field.
pub const COLUMNS: usize = 10;

/// Number of rows visible to the player.
pub const ROWS: usize = 20;

/// Extra rows above the visible field, where a piece may lock before the
/// loss check fires.
pub const BUFFER: usize = 4;

/// Total number of rows held by the grid.
pub const HEIGHT: usize = 24;

} // verus!
