//! Board generation for minesweeper: a square grid of cells, a subset of which
//! hold mines, every other cell annotated with the number of mines touching it.
//!
//! A [`BoardBuilder`] makes a [`Board`] in phases; [`Board::generate`] runs
//! them all. The modules `grid` and `placement` hold the mathematical model
//! that the contracts are stated over, and `laws` what follows from them.

pub mod board;
pub mod builder;
pub mod cell;
pub mod error;
pub mod grid;
pub mod laws;
pub mod placement;
mod sampling;

pub use board::Board;
pub use builder::{BoardBuilder, BuildPhase};
pub use cell::{BoardCell, GameObject};
pub use error::BoardError;
