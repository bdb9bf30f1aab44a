//! Cell classifications and the cell itself.

use vstd::prelude::*;

verus! {

/// What a cell of the board holds.
///
/// The three variants exclude one another: a cell that holds a mine carries no
/// count, and a cell that carries a count holds no mine.
#[derive(Clone, Copy, Debug, PartialEq, Eq, Structural)]
pub enum GameObject {
    /// No mine here and none on any adjacent cell.
    EMPTY,
    /// No mine here; the payload is the number of adjacent cells holding one.
    NEIGHBOUR(u32),
    /// A mine.
    MINE,
}

impl GameObject {
    /// The number of adjacent mines that this classification records.
    pub open spec fn count(self) -> nat {
        match self {
            GameObject::NEIGHBOUR(k) => k as nat,
            _ => 0,
        }
    }

    /// The classification after one more adjacent mine has been seen. A mine
    /// stays a mine.
    pub open spec fn bumped(self) -> GameObject {
        match self {
            GameObject::EMPTY => GameObject::NEIGHBOUR(1),
            GameObject::NEIGHBOUR(k) => GameObject::NEIGHBOUR((k + 1) as u32),
            GameObject::MINE => GameObject::MINE,
        }
    }

    /// Whether this cell holds a mine.
    pub fn is_mine(&self) -> (b: bool)
        ensures
            b == (*self is MINE),
    {
        match self {
            GameObject::MINE => true,
            _ => false,
        }
    }
}

/// A single cell of the board.
#[derive(Clone, Copy, Debug, PartialEq, Eq, Structural)]
pub struct BoardCell {
    pub cell_type: GameObject,
}

impl BoardCell {
    /// A cell without a mine and without adjacent mines.
    pub fn new() -> (cell: Self)
        ensures
            cell.cell_type == GameObject::EMPTY,
    {
        BoardCell { cell_type: GameObject::EMPTY }
    }
}

} // verus!
