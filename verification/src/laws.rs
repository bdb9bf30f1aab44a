//! What holds of every builder, stated once and proved.

use vstd::prelude::*;
use crate::builder::{BoardBuilder, BuildPhase};
use crate::grid::{
    is_annotated, is_square, lemma_annotated_grid, lemma_mined_grid_mines, mine_positions,
};

verus! {

/// Once the mines are placed the board holds exactly as many mines as were
/// asked for, and it still does when the cells around them are counted.
pub proof fn lemma_exact_count(builder: BoardBuilder)
    requires
        builder.wf(),
        builder.phase() != BuildPhase::Created,
    ensures
        mine_positions(builder.grid()) == builder.placed(),
        mine_positions(builder.grid()).finite(),
        mine_positions(builder.grid()).len() == builder.mine_count(),
{
    lemma_mined_grid_mines(builder.size() as nat, builder.placed());
    lemma_annotated_grid(builder.size() as nat, builder.placed());
}

/// Once the cells around the mines are counted, every cell without a mine
/// records exactly the number of mines around it.
pub proof fn lemma_adjacency_correct(builder: BoardBuilder)
    requires
        builder.wf(),
        builder.phase() == BuildPhase::NeighboursComputed,
    ensures
        is_square(builder.grid(), builder.size() as nat),
        is_annotated(builder.grid()),
{
    lemma_annotated_grid(builder.size() as nat, builder.placed());
}

/// The counted grid depends on the side of the board and the set of mines
/// alone: two builders that agree on both hold the same grid, however each
/// came by its mines.
pub proof fn lemma_counting_determined(one: BoardBuilder, other: BoardBuilder)
    requires
        one.wf(),
        other.wf(),
        one.phase() == BuildPhase::NeighboursComputed,
        other.phase() == BuildPhase::NeighboursComputed,
        one.size() == other.size(),
        one.placed() == other.placed(),
    ensures
        one.grid() == other.grid(),
{
}

} // verus!
