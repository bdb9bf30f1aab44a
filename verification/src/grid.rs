//! The mathematical model of a board: a sequence of rows of classifications,
//! and what it means for such a grid to be correctly annotated.
//!
//! Coordinates are pairs `(row, col)` of mathematical integers, so that the
//! eight positions around a cell can be named without regard to the edge of
//! the grid: a position outside the grid is simply never a mine.

use vstd::prelude::*;
use crate::cell::GameObject;

verus! {

/// `grid` has `size` rows of `size` cells each.
pub open spec fn is_square(grid: Seq<Seq<GameObject>>, size: nat) -> bool {
    &&& grid.len() == size
    &&& forall|r: int| 0 <= r < size ==> (#[trigger] grid[r]).len() == size
}

/// `(row, col)` lies on a grid of side `size`.
pub open spec fn in_grid(size: nat, row: int, col: int) -> bool {
    0 <= row < size && 0 <= col < size
}

/// Every position of `mines` lies on a grid of side `size`.
pub open spec fn within(mines: Set<(int, int)>, size: nat) -> bool {
    forall|p: (int, int)| #[trigger] mines.contains(p) ==> in_grid(size, p.0, p.1)
}

/// The cell at `(row, col)` exists in `grid` and holds a mine.
pub open spec fn has_mine(grid: Seq<Seq<GameObject>>, row: int, col: int) -> bool {
    &&& 0 <= row < grid.len()
    &&& 0 <= col < grid[row].len()
    &&& grid[row][col] is MINE
}

/// The positions of `grid` that hold a mine.
pub open spec fn mine_positions(grid: Seq<Seq<GameObject>>) -> Set<(int, int)> {
    Set::new(|p: (int, int)| has_mine(grid, p.0, p.1))
}

/// Two distinct positions whose rows and columns each differ by at most one.
pub open spec fn adjacent(a: (int, int), b: (int, int)) -> bool {
    &&& a != b
    &&& -1 <= a.0 - b.0 <= 1
    &&& -1 <= a.1 - b.1 <= 1
}

/// One if `(row, col)` is in `mines`, zero otherwise.
pub open spec fn mine_at(mines: Set<(int, int)>, row: int, col: int) -> nat {
    if mines.contains((row, col)) {
        1
    } else {
        0
    }
}

/// How many of the eight positions around `(row, col)` are in `mines`.
pub open spec fn adjacent_mines(mines: Set<(int, int)>, row: int, col: int) -> nat {
    mine_at(mines, row - 1, col - 1) + mine_at(mines, row - 1, col) + mine_at(
        mines,
        row - 1,
        col + 1,
    ) + mine_at(mines, row, col - 1) + mine_at(mines, row, col + 1) + mine_at(
        mines,
        row + 1,
        col - 1,
    ) + mine_at(mines, row + 1, col) + mine_at(mines, row + 1, col + 1)
}

/// The classification of a cell without a mine that touches `count` mines.
pub open spec fn classify(count: nat) -> GameObject {
    if count == 0 {
        GameObject::EMPTY
    } else {
        GameObject::NEIGHBOUR(count as u32)
    }
}

/// The cell at `(row, col)` once the mines are placed and nothing is counted
/// yet.
pub open spec fn mined_cell(mines: Set<(int, int)>, row: int, col: int) -> GameObject {
    if mines.contains((row, col)) {
        GameObject::MINE
    } else {
        GameObject::EMPTY
    }
}

/// The grid of side `size` with a mine on every position of `mines` and every
/// other cell empty.
pub open spec fn mined_grid(size: nat, mines: Set<(int, int)>) -> Seq<Seq<GameObject>> {
    Seq::new(size, |r: int| Seq::new(size, |c: int| mined_cell(mines, r, c)))
}

/// The cell at `(row, col)` of a finished grid whose mines are `mines`.
pub open spec fn annotated_cell(mines: Set<(int, int)>, row: int, col: int) -> GameObject {
    if mines.contains((row, col)) {
        GameObject::MINE
    } else {
        classify(adjacent_mines(mines, row, col))
    }
}

/// The finished grid of side `size` whose mines are `mines`: a mine on every
/// position of `mines`, and on every other cell the number of mines around it.
pub open spec fn annotated_grid(size: nat, mines: Set<(int, int)>) -> Seq<Seq<GameObject>> {
    Seq::new(size, |r: int| Seq::new(size, |c: int| annotated_cell(mines, r, c)))
}

/// Every cell of `grid` without a mine records exactly the number of mines
/// around it: `EMPTY` for none, `NEIGHBOUR(k)` for `k` of them.
pub open spec fn is_annotated(grid: Seq<Seq<GameObject>>) -> bool {
    forall|r: int, c: int|
        0 <= r < grid.len() && 0 <= c < grid[r].len() && !(grid[r][c] is MINE) ==> {
            #[trigger] grid[r][c] == classify(adjacent_mines(mine_positions(grid), r, c))
        }
}

/// The cells around `(row, col)` that are in `mines`.
pub open spec fn mines_around(mines: Set<(int, int)>, row: int, col: int) -> Set<(int, int)> {
    Set::new(|p: (int, int)| mines.contains(p) && adjacent(p, (row, col)))
}

/// `seen` with `p` added if `p` is a mine.
spec fn with_mine(mines: Set<(int, int)>, seen: Set<(int, int)>, p: (int, int)) -> Set<(int, int)> {
    if mines.contains(p) {
        seen.insert(p)
    } else {
        seen
    }
}

/// A classification is never a mine and a neighbour at once, and a count that
/// is kept is at least one.
pub proof fn lemma_classification_exclusive(kind: GameObject, count: nat)
    ensures
        !(kind is MINE && kind is NEIGHBOUR),
        !(kind is MINE && kind is EMPTY),
        !(kind is EMPTY && kind is NEIGHBOUR),
        !(classify(count) is MINE),
        0 < count <= u32::MAX ==> classify(count) == GameObject::NEIGHBOUR(count as u32),
        classify(count) is EMPTY <==> count == 0,
{
}

/// At most eight mines touch a cell.
pub proof fn lemma_adjacent_mines_bound(mines: Set<(int, int)>, row: int, col: int)
    ensures
        adjacent_mines(mines, row, col) <= 8,
{
}

/// A mine added to a set is counted once more on each cell around it and on
/// no other cell.
pub proof fn lemma_adjacent_mines_insert(
    mines: Set<(int, int)>,
    mine: (int, int),
    row: int,
    col: int,
)
    requires
        !mines.contains(mine),
    ensures
        adjacent((row, col), mine) ==> adjacent_mines(mines.insert(mine), row, col)
            == adjacent_mines(mines, row, col) + 1,
        !adjacent((row, col), mine) ==> adjacent_mines(mines.insert(mine), row, col)
            == adjacent_mines(mines, row, col),
{
}

/// The number that a cell records is the size of the set of mines among the
/// cells around it.
pub proof fn lemma_adjacent_mines_counts(mines: Set<(int, int)>, row: int, col: int)
    ensures
        mines_around(mines, row, col).finite(),
        mines_around(mines, row, col).len() == adjacent_mines(mines, row, col),
{
    let s0 = Set::<(int, int)>::empty();
    let s1 = with_mine(mines, s0, (row - 1, col - 1));
    let s2 = with_mine(mines, s1, (row - 1, col));
    let s3 = with_mine(mines, s2, (row - 1, col + 1));
    let s4 = with_mine(mines, s3, (row, col - 1));
    let s5 = with_mine(mines, s4, (row, col + 1));
    let s6 = with_mine(mines, s5, (row + 1, col - 1));
    let s7 = with_mine(mines, s6, (row + 1, col));
    let s8 = with_mine(mines, s7, (row + 1, col + 1));
    assert(mines_around(mines, row, col) =~= s8);
}

/// A grid built from a set of mines is square, and its mines are that set.
pub proof fn lemma_mined_grid_mines(size: nat, mines: Set<(int, int)>)
    requires
        within(mines, size),
    ensures
        is_square(mined_grid(size, mines), size),
        mine_positions(mined_grid(size, mines)) == mines,
{
    assert(mine_positions(mined_grid(size, mines)) =~= mines);
}

/// A finished grid is square, its mines are the set that it was built from,
/// and every cell without a mine records the number of mines around it.
pub proof fn lemma_annotated_grid(size: nat, mines: Set<(int, int)>)
    requires
        within(mines, size),
    ensures
        is_square(annotated_grid(size, mines), size),
        mine_positions(annotated_grid(size, mines)) == mines,
        is_annotated(annotated_grid(size, mines)),
{
    assert(mine_positions(annotated_grid(size, mines)) =~= mines);
}

/// While the mines are being counted they stay where they were placed: a
/// finished grid holds a mine exactly where the grid with the same mines and
/// nothing counted does, and no cell with a mine carries a count.
pub proof fn lemma_counting_keeps_mines(size: nat, mines: Set<(int, int)>, row: int, col: int)
    requires
        in_grid(size, row, col),
    ensures
        annotated_grid(size, mines)[row][col] is MINE <==> mines.contains((row, col)),
        mined_grid(size, mines)[row][col] is MINE <==> mines.contains((row, col)),
        annotated_grid(size, mines)[row][col] is NEIGHBOUR ==> !mines.contains((row, col)),
{
}

} // verus!
