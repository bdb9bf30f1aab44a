//! The ways in which building a board can fail.

use vstd::prelude::*;

verus! {

/// Why a board could not be built.
#[derive(Clone, Copy, Debug, PartialEq, Eq, Structural)]
pub enum BoardError {
    /// The side of the board is zero, or more mines were asked for than the
    /// board has cells.
    InvalidConfiguration,
    /// The coordinate source ran out before the requested number of distinct
    /// positions on the board had been found.
    ExhaustedSampling,
    /// A phase of the builder was entered out of turn.
    OutOfOrder,
}

} // verus!
