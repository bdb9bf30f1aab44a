//! The builder: a board is made in three phases, each entered once and in
//! turn: mines are placed, the cells around them are counted, and the board is
//! handed out.

use vstd::prelude::*;
use crate::board::Board;
use crate::cell::GameObject;
use crate::error::BoardError;
use crate::grid::{
    adjacent, adjacent_mines, annotated_grid, classify, in_grid, is_annotated,
    lemma_adjacent_mines_insert, lemma_annotated_grid, mine_positions, mined_grid, within,
};
use crate::placement::{
    all_in_grid, distinct, drawn, lemma_drawn_full, lemma_positions_contains,
    lemma_positions_len, lemma_positions_push, lemma_positions_within, position, positions,
};
use crate::sampling::sample_index;

verus! {

/// How far a builder has come.
#[derive(Clone, Copy, Debug, PartialEq, Eq, Structural)]
pub enum BuildPhase {
    /// The board is empty and waits for its mines.
    Created,
    /// All mines are on the board; nothing is counted yet.
    MinesPlaced,
    /// Every cell without a mine records the mines around it.
    NeighboursComputed,
}

/// A board of side `size` can hold `mines` mines.
pub open spec fn valid_configuration(size: usize, mines: usize) -> bool {
    size > 0 && mines <= size * size
}

/// The most coordinates that `place_mines` draws before it gives up.
pub const SAMPLE_BUDGET: u64 = 0xffff_ffff_ffff_ffff;

/// The cell at `(row, col)` when the mines of `all` are placed and those of
/// `counted` have been counted on the cells around them.
spec fn counted_cell(
    all: Set<(int, int)>,
    counted: Set<(int, int)>,
    row: int,
    col: int,
) -> GameObject {
    if all.contains((row, col)) {
        GameObject::MINE
    } else {
        classify(adjacent_mines(counted, row, col))
    }
}

/// The grid of side `size` when the mines of `all` are placed and those of
/// `counted` have been counted.
spec fn counted_grid(size: nat, all: Set<(int, int)>, counted: Set<(int, int)>) -> Seq<
    Seq<GameObject>,
> {
    Seq::new(size, |r: int| Seq::new(size, |c: int| counted_cell(all, counted, r, c)))
}

/// Counts one more mine on the cell at `(row, col)`: an empty cell becomes a
/// neighbour of one, a neighbour of `k` a neighbour of `k + 1`, and a mine is
/// left alone.
fn bump(board: &mut Board, row: usize, col: usize)
    requires
        old(board).wf(),
        row < old(board)@.len(),
        col < old(board)@.len(),
        old(board)@[row as int][col as int].count() < u32::MAX,
    ensures
        final(board).wf(),
        final(board)@ == old(board)@.update(
            row as int,
            old(board)@[row as int].update(
                col as int,
                old(board)@[row as int][col as int].bumped(),
            ),
        ),
{
    match board.cell(row, col) {
        GameObject::EMPTY => board.set_cell(row, col, GameObject::NEIGHBOUR(1)),
        GameObject::NEIGHBOUR(count) => board.set_cell(row, col, GameObject::NEIGHBOUR(count + 1)),
        GameObject::MINE => {
            assert(board@ =~~= old(board)@.update(
                row as int,
                old(board)@[row as int].update(col as int, GameObject::MINE),
            ));
        },
    }
}

/// Counts the mine at `(x, y)` on each of the up to eight cells around it
/// that lie on the board.
fn mark_around(board: &mut Board, x: usize, y: usize)
    requires
        old(board).wf(),
        x < old(board)@.len(),
        y < old(board)@.len(),
        forall|r: int, c: int|
            0 <= r < old(board)@.len() && 0 <= c < old(board)@.len() && adjacent(
                (r, c),
                (x as int, y as int),
            ) ==> (#[trigger] old(board)@[r][c]).count() < u32::MAX,
    ensures
        final(board).wf(),
        final(board)@.len() == old(board)@.len(),
        forall|r: int, c: int|
            0 <= r < old(board)@.len() && 0 <= c < old(board)@.len() ==> {
                #[trigger] final(board)@[r][c] == if adjacent((r, c), (x as int, y as int)) {
                    old(board)@[r][c].bumped()
                } else {
                    old(board)@[r][c]
                }
            },
{
    let n = board.size();
    if x > 0 && y > 0 {
        bump(board, x - 1, y - 1);
    }
    if x > 0 {
        bump(board, x - 1, y);
    }
    if x > 0 && y + 1 < n {
        bump(board, x - 1, y + 1);
    }
    if y > 0 {
        bump(board, x, y - 1);
    }
    if y + 1 < n {
        bump(board, x, y + 1);
    }
    if x + 1 < n && y > 0 {
        bump(board, x + 1, y - 1);
    }
    if x + 1 < n {
        bump(board, x + 1, y);
    }
    if x + 1 < n && y + 1 < n {
        bump(board, x + 1, y + 1);
    }
}

/// Offers the coordinate `(row, col)` to a board that holds the mines of
/// `mines` and nothing else. It is taken when it lies on the board and no mine
/// is there yet: the cell becomes a mine and the coordinate is recorded.
fn offer(
    board: &mut Board,
    mines: &mut Vec<(usize, usize)>,
    row: usize,
    col: usize,
) -> (taken: bool)
    requires
        old(board).wf(),
        distinct(old(mines)@),
        all_in_grid(old(mines)@, old(board)@.len()),
        old(board)@ == mined_grid(old(board)@.len(), positions(old(mines)@)),
    ensures
        final(board).wf(),
        final(board)@.len() == old(board)@.len(),
        distinct(final(mines)@),
        all_in_grid(final(mines)@, old(board)@.len()),
        final(board)@ == mined_grid(old(board)@.len(), positions(final(mines)@)),
        taken == (in_grid(old(board)@.len(), row as int, col as int) && !old(mines)@.contains(
            (row, col),
        )),
        final(mines)@ == (if taken {
            old(mines)@.push((row, col))
        } else {
            old(mines)@
        }),
{
    let n = board.size();
    if row >= n || col >= n {
        return false;
    }
    proof {
        lemma_positions_contains(mines@, (row, col));
    }
    if board.cell(row, col).is_mine() {
        return false;
    }
    board.set_cell(row, col, GameObject::MINE);
    mines.push((row, col));
    proof {
        lemma_positions_push(old(mines)@, (row, col));
        assert(board@ =~~= mined_grid(n as nat, positions(mines@)));
    }
    true
}

/// Builds a board in phases: `new`, then `place_mines` or `place_mines_from`,
/// then `compute_neighbours`, then `build`.
///
/// Every phase takes the builder by value and hands on its successor, and
/// each checks the phase it is entered in: one entered out of turn is
/// refused. The builder keeps the coordinates of the mines it has
/// placed, none of them twice, beside the board that carries them.
#[derive(Debug)]
pub struct BoardBuilder {
    board_size: usize,
    no_of_mines: usize,
    mines: Vec<(usize, usize)>,
    board: Board,
    phase: BuildPhase,
}

impl BoardBuilder {
    /// The side of the board under construction.
    pub closed spec fn spec_size(&self) -> usize {
        self.board_size
    }

    /// The number of mines that the finished board is to hold.
    pub closed spec fn spec_mine_count(&self) -> usize {
        self.no_of_mines
    }

    /// The phase that the builder is in.
    pub closed spec fn spec_phase(&self) -> BuildPhase {
        self.phase
    }

    /// The positions on which a mine has been placed.
    pub closed spec fn placed(&self) -> Set<(int, int)> {
        positions(self.mines@)
    }

    /// The grid as it stands.
    pub closed spec fn grid(&self) -> Seq<Seq<GameObject>> {
        self.board@
    }

    /// The record of placed mines agrees with itself and with the board.
    pub closed spec fn consistent(&self) -> bool {
        &&& self.board.wf()
        &&& self.board@.len() == self.board_size
        &&& distinct(self.mines@)
        &&& all_in_grid(self.mines@, self.board_size as nat)
    }

    /// What holds of a builder in each of its phases.
    pub open spec fn wf(&self) -> bool {
        &&& self.consistent()
        &&& valid_configuration(self.size(), self.mine_count())
        &&& self.placed().finite()
        &&& within(self.placed(), self.size() as nat)
        &&& match self.phase() {
            BuildPhase::Created => {
                &&& self.placed() == Set::<(int, int)>::empty()
                &&& self.grid() == mined_grid(self.size() as nat, self.placed())
            },
            BuildPhase::MinesPlaced => {
                &&& self.placed().len() == self.mine_count()
                &&& self.grid() == mined_grid(self.size() as nat, self.placed())
            },
            BuildPhase::NeighboursComputed => {
                &&& self.placed().len() == self.mine_count()
                &&& self.grid() == annotated_grid(self.size() as nat, self.placed())
            },
        }
    }

    /// What comes of placing the mines of a fresh builder from the stream
    /// `samples`: when the stream yields as many coordinates as mines were
    /// asked for, the builder with a mine on each of them and on no other
    /// cell; when it ends before that, the refusal as exhausted. A builder
    /// that is not fresh is refused as out of order.
    pub open spec fn places(
        &self,
        samples: Seq<(usize, usize)>,
        placed: Result<BoardBuilder, BoardError>,
    ) -> bool {
        let taken = drawn(samples, self.size() as nat, self.mine_count() as nat);
        match placed {
            Ok(builder) => {
                &&& self.phase() == BuildPhase::Created
                &&& taken.len() == self.mine_count()
                &&& builder.wf()
                &&& builder.phase() == BuildPhase::MinesPlaced
                &&& builder.size() == self.size()
                &&& builder.mine_count() == self.mine_count()
                &&& builder.placed() == positions(taken)
            },
            Err(e) => if self.phase() == BuildPhase::Created {
                e == BoardError::ExhaustedSampling && taken.len() < self.mine_count()
            } else {
                e == BoardError::OutOfOrder
            },
        }
    }

    /// The side of the board under construction.
    #[verifier::when_used_as_spec(spec_size)]
    pub fn size(&self) -> (n: usize)
        ensures
            n == self.spec_size(),
    {
        self.board_size
    }

    /// The number of mines that the finished board is to hold.
    #[verifier::when_used_as_spec(spec_mine_count)]
    pub fn mine_count(&self) -> (n: usize)
        ensures
            n == self.spec_mine_count(),
    {
        self.no_of_mines
    }

    /// The phase that the builder is in.
    #[verifier::when_used_as_spec(spec_phase)]
    pub fn phase(&self) -> (phase: BuildPhase)
        ensures
            phase == self.spec_phase(),
    {
        self.phase
    }

    /// A builder for a board of side `size` with `mines` mines, its board
    /// empty. Refused when the board would have no cells or fewer cells than
    /// mines.
    pub fn new(size: usize, mines: usize) -> (made: Result<Self, BoardError>)
        ensures
            match made {
                Ok(builder) => {
                    &&& valid_configuration(size, mines)
                    &&& builder.wf()
                    &&& builder.size() == size
                    &&& builder.mine_count() == mines
                    &&& builder.phase() == BuildPhase::Created
                },
                Err(e) => {
                    &&& !valid_configuration(size, mines)
                    &&& e == BoardError::InvalidConfiguration
                },
            },
    {
        let fits = match size.checked_mul(size) {
            Some(cells) => mines <= cells,
            None => true,
        };
        if !fits {
            return Err(BoardError::InvalidConfiguration);
        }
        match Board::new(size) {
            Err(_) => Err(BoardError::InvalidConfiguration),
            Ok(board) => {
                let builder = BoardBuilder {
                    board_size: size,
                    no_of_mines: mines,
                    mines: Vec::new(),
                    board,
                    phase: BuildPhase::Created,
                };
                proof {
                    assert(positions(builder.mines@) =~= Set::empty());
                }
                Ok(builder)
            },
        }
    }

    /// Places the mines from a given stream of coordinates, offered in order.
    /// A coordinate is taken when it lies on the board and no mine is there
    /// yet, until as many are taken as mines were asked for; the rest of the
    /// stream is not looked at. Each coordinate taken becomes a mine on the
    /// board.
    ///
    /// Refused as out of order unless the builder is fresh, and as exhausted
    /// when the stream ends before enough coordinates were taken.
    pub fn place_mines_from(self, samples: &[(usize, usize)]) -> (placed: Result<Self, BoardError>)
        requires
            self.wf(),
        ensures
            self.places(samples@, placed),
    {
        match self.phase {
            BuildPhase::Created => {},
            _ => {
                return Err(BoardError::OutOfOrder);
            },
        }
        let BoardBuilder { board_size, no_of_mines, mut mines, mut board, phase: _ } = self;
        let ghost size = board_size as nat;
        let ghost wanted = no_of_mines as nat;
        proof {
            lemma_positions_len(mines@);
        }
        let mut i: usize = 0;
        while i < samples.len() && mines.len() < no_of_mines
            invariant
                i <= samples.len(),
                size == board_size,
                wanted == no_of_mines,
                board.wf(),
                board@.len() == board_size,
                distinct(mines@),
                all_in_grid(mines@, size),
                board@ == mined_grid(size, positions(mines@)),
                mines@ == drawn(samples@.take(i as int), size, wanted),
                mines@.len() <= wanted,
            decreases samples.len() - i,
        {
            let (row, col) = samples[i];
            offer(&mut board, &mut mines, row, col);
            proof {
                let upto = samples@.take(i + 1);
                assert(upto.drop_last() =~= samples@.take(i as int));
            }
            i += 1;
        }
        proof {
            if mines.len() >= no_of_mines {
                lemma_drawn_full(samples@, size, wanted, i as int);
            } else {
                assert(samples@.take(i as int) =~= samples@);
            }
            lemma_positions_len(mines@);
            lemma_positions_within(mines@, size);
        }
        if mines.len() < no_of_mines {
            return Err(BoardError::ExhaustedSampling);
        }
        Ok(
            BoardBuilder {
                board_size,
                no_of_mines,
                mines,
                board,
                phase: BuildPhase::MinesPlaced,
            },
        )
    }

    /// Places the mines at random: draws a row and a column below the side of
    /// the board, offers the pair, and goes on until as many distinct cells
    /// hold a mine as were asked for. A pair that names a cell with a mine is
    /// drawn again and uses up no mine.
    ///
    /// Which coordinates are drawn is not determined. Whatever they are, the
    /// outcome is that of placing the mines from the stream of the pairs
    /// drawn, all of which lie on the board. Nothing is drawn once enough
    /// mines are placed, so without mines to place the phase succeeds. It
    /// gives up as exhausted only after `SAMPLE_BUDGET` draws, and is refused
    /// as out of order unless the builder is fresh.
    pub fn place_mines(self) -> (placed: Result<Self, BoardError>)
        requires
            self.wf(),
        ensures
            self.phase() != BuildPhase::Created ==> (placed matches Err(e) && e
                == BoardError::OutOfOrder),
            self.phase() == BuildPhase::Created ==> exists|draws: Seq<(usize, usize)>|
                {
                    &&& #[trigger] self.places(draws, placed)
                    &&& all_in_grid(draws, self.size() as nat)
                    &&& draws.len() <= SAMPLE_BUDGET
                    &&& placed is Err ==> draws.len() == SAMPLE_BUDGET
                },
    {
        match self.phase {
            BuildPhase::Created => {},
            _ => {
                return Err(BoardError::OutOfOrder);
            },
        }
        let ghost fresh = self;
        let BoardBuilder { board_size, no_of_mines, mut mines, mut board, phase: _ } = self;
        let ghost size = board_size as nat;
        let ghost wanted = no_of_mines as nat;
        let ghost mut draws: Seq<(usize, usize)> = Seq::empty();
        proof {
            lemma_positions_len(mines@);
        }
        let mut rng = rand::thread_rng();
        let mut budget: u64 = SAMPLE_BUDGET;
        while mines.len() < no_of_mines && budget > 0
            invariant
                size == board_size,
                wanted == no_of_mines,
                board_size > 0,
                board.wf(),
                board@.len() == board_size,
                distinct(mines@),
                all_in_grid(mines@, size),
                board@ == mined_grid(size, positions(mines@)),
                mines@ == drawn(draws, size, wanted),
                mines@.len() <= wanted,
                all_in_grid(draws, size),
                draws.len() + budget == SAMPLE_BUDGET,
            decreases budget,
        {
            budget -= 1;
            let row = sample_index(&mut rng, board_size);
            let col = sample_index(&mut rng, board_size);
            offer(&mut board, &mut mines, row, col);
            proof {
                let sofar = draws;
                draws = sofar.push((row, col));
                assert(draws.drop_last() =~= sofar);
            }
        }
        proof {
            lemma_positions_len(mines@);
            lemma_positions_within(mines@, size);
        }
        let placed = if mines.len() < no_of_mines {
            Err(BoardError::ExhaustedSampling)
        } else {
            Ok(
                BoardBuilder {
                    board_size,
                    no_of_mines,
                    mines,
                    board,
                    phase: BuildPhase::MinesPlaced,
                },
            )
        };
        assert(fresh.places(draws, placed));
        placed
    }

    /// Counts, for every placed mine, that mine on each cell around it that
    /// lies on the board and holds no mine itself. Afterwards every cell
    /// without a mine records exactly the number of mines around it, and the
    /// mines are where they were: the grid is `annotated_grid` of the side and
    /// the set of mines, whatever the order in which they were placed.
    ///
    /// Refused unless the mines have been placed and nothing is counted yet.
    pub fn compute_neighbours(self) -> (counted: Result<Self, BoardError>)
        requires
            self.wf(),
        ensures
            match counted {
                Ok(builder) => {
                    &&& self.phase() == BuildPhase::MinesPlaced
                    &&& builder.wf()
                    &&& builder.phase() == BuildPhase::NeighboursComputed
                    &&& builder.size() == self.size()
                    &&& builder.mine_count() == self.mine_count()
                    &&& builder.placed() == self.placed()
                    &&& builder.grid() == annotated_grid(self.size() as nat, self.placed())
                },
                Err(e) => self.phase() != BuildPhase::MinesPlaced && e == BoardError::OutOfOrder,
            },
    {
        match self.phase {
            BuildPhase::MinesPlaced => {},
            _ => {
                return Err(BoardError::OutOfOrder);
            },
        }
        let BoardBuilder { board_size, no_of_mines, mines, mut board, phase: _ } = self;
        let ghost size = board_size as nat;
        let ghost all = positions(mines@);
        let mut i: usize = 0;
        proof {
            assert(board@ =~~= counted_grid(size, all, positions(mines@.take(0))));
        }
        while i < mines.len()
            invariant
                i <= mines.len(),
                size == board_size,
                all == positions(mines@),
                board.wf(),
                board@.len() == board_size,
                distinct(mines@),
                all_in_grid(mines@, size),
                board@ == counted_grid(size, all, positions(mines@.take(i as int))),
            decreases mines.len() - i,
        {
            let (x, y) = mines[i];
            let ghost before = board@;
            let ghost done = positions(mines@.take(i as int));
            mark_around(&mut board, x, y);
            proof {
                let mine = mines@[i as int];
                let next = done.insert(position(mine));
                assert(mines@.take(i + 1) =~= mines@.take(i as int).push(mine));
                lemma_positions_push(mines@.take(i as int), mine);
                lemma_positions_contains(mines@.take(i as int), mine);
                assert forall|r: int, c: int| 0 <= r < size && 0 <= c < size implies board@[r][c]
                    == counted_cell(all, next, r, c) by {
                    assert(before[r][c] == counted_cell(all, done, r, c));
                    lemma_adjacent_mines_insert(done, position(mine), r, c);
                }
                assert(board@ =~~= counted_grid(size, all, next));
            }
            i += 1;
        }
        proof {
            assert(mines@.take(mines@.len() as int) =~= mines@);
            assert(board@ =~~= annotated_grid(size, all));
        }
        Ok(
            BoardBuilder {
                board_size,
                no_of_mines,
                mines,
                board,
                phase: BuildPhase::NeighboursComputed,
            },
        )
    }

    /// Hands out the finished board and ends the builder.
    ///
    /// The board is the grid as counted: it holds exactly as many mines as
    /// were asked for, and every cell without a mine records the number of
    /// mines around it. Refused unless the cells around the mines have been
    /// counted.
    pub fn build(self) -> (built: Result<Board, BoardError>)
        requires
            self.wf(),
        ensures
            match built {
                Ok(board) => {
                    &&& self.phase() == BuildPhase::NeighboursComputed
                    &&& board.wf()
                    &&& board@.len() == self.size()
                    &&& board@ == annotated_grid(self.size() as nat, self.placed())
                    &&& mine_positions(board@) == self.placed()
                    &&& mine_positions(board@).len() == self.mine_count()
                    &&& is_annotated(board@)
                },
                Err(e) => self.phase() != BuildPhase::NeighboursComputed && e
                    == BoardError::OutOfOrder,
            },
    {
        match self.phase {
            BuildPhase::NeighboursComputed => {},
            _ => {
                return Err(BoardError::OutOfOrder);
            },
        }
        proof {
            lemma_annotated_grid(self.size() as nat, self.placed());
        }
        Ok(self.board)
    }
}

impl Board {
    /// A finished board of side `size` with `mines` mines placed at random:
    /// all phases of the builder, one after another.
    ///
    /// Whatever is drawn, a board that comes out holds exactly `mines` mines
    /// and every cell without a mine records the number of mines around it. A
    /// configuration that no board can have is refused, and one that can have
    /// a board without mines always yields it.
    pub fn generate(size: usize, mines: usize) -> (made: Result<Board, BoardError>)
        ensures
            match made {
                Ok(board) => {
                    &&& valid_configuration(size, mines)
                    &&& board.wf()
                    &&& board@.len() == size
                    &&& mine_positions(board@).finite()
                    &&& mine_positions(board@).len() == mines
                    &&& is_annotated(board@)
                },
                Err(e) => if valid_configuration(size, mines) {
                    e == BoardError::ExhaustedSampling && mines > 0
                } else {
                    e == BoardError::InvalidConfiguration
                },
            },
    {
        let fresh = match BoardBuilder::new(size, mines) {
            Ok(builder) => builder,
            Err(e) => {
                return Err(e);
            },
        };
        let mined = match fresh.place_mines() {
            Ok(builder) => builder,
            Err(e) => {
                return Err(e);
            },
        };
        let counted = match mined.compute_neighbours() {
            Ok(builder) => builder,
            Err(e) => {
                return Err(e);
            },
        };
        counted.build()
    }
}

} // verus!
