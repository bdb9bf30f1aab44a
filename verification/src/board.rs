//! The board: a square grid of cells, read by row and column.

use vstd::prelude::*;
use vstd::std_specs::cmp::PartialEqSpecImpl;
use crate::cell::{BoardCell, GameObject};
use crate::error::BoardError;
use crate::grid::{is_square, mined_grid};

verus! {

/// A square grid of cells.
///
/// Its view is the grid of classifications, row by row. Whatever else a cell
/// may carry plays no part in it.
#[derive(Debug)]
pub struct Board {
    cells: Vec<Vec<BoardCell>>,
}

impl View for Board {
    type V = Seq<Seq<GameObject>>;

    closed spec fn view(&self) -> Seq<Seq<GameObject>> {
        Seq::new(
            self.cells@.len(),
            |r: int| Seq::new(self.cells@[r]@.len(), |c: int| self.cells@[r]@[c].cell_type),
        )
    }
}

impl Board {
    /// The board has at least one row and is square.
    pub open spec fn wf(&self) -> bool {
        &&& self@.len() > 0
        &&& is_square(self@, self@.len())
    }

    /// A board of `size` rows and `size` columns, every cell empty. A board
    /// without cells is refused.
    pub fn new(size: usize) -> (made: Result<Board, BoardError>)
        ensures
            match made {
                Ok(board) => size > 0 && board.wf() && board@ == mined_grid(
                    size as nat,
                    Set::empty(),
                ),
                Err(e) => size == 0 && e == BoardError::InvalidConfiguration,
            },
    {
        if size == 0 {
            return Err(BoardError::InvalidConfiguration);
        }
        let mut cells: Vec<Vec<BoardCell>> = Vec::new();
        let mut r: usize = 0;
        while r < size
            invariant
                r <= size,
                cells@.len() == r,
                forall|i: int|
                    0 <= i < r ==> {
                        &&& (#[trigger] cells@[i])@.len() == size
                        &&& forall|j: int|
                            0 <= j < size ==> (#[trigger] cells@[i]@[j]).cell_type
                                == GameObject::EMPTY
                    },
            decreases size - r,
        {
            let mut row: Vec<BoardCell> = Vec::new();
            let mut c: usize = 0;
            while c < size
                invariant
                    c <= size,
                    row@.len() == c,
                    forall|j: int|
                        0 <= j < c ==> (#[trigger] row@[j]).cell_type == GameObject::EMPTY,
                decreases size - c,
            {
                row.push(BoardCell::new());
                c += 1;
            }
            cells.push(row);
            r += 1;
        }
        let board = Board { cells };
        assert(board@ =~~= mined_grid(size as nat, Set::empty()));
        Ok(board)
    }

    /// The number of rows, which is also the number of columns.
    pub fn size(&self) -> (n: usize)
        ensures
            n == self@.len(),
    {
        self.cells.len()
    }

    /// The classification of the cell at `(row, col)`.
    ///
    /// Reading takes the board by shared reference and returns what its view
    /// holds at that place: any two reads of one board at one place agree.
    pub fn cell(&self, row: usize, col: usize) -> (kind: GameObject)
        requires
            self.wf(),
            row < self@.len(),
            col < self@.len(),
        ensures
            kind == self@[row as int][col as int],
    {
        self.cells[row][col].cell_type
    }

    /// The classifications of all cells, row by row from the first row, each
    /// row from its first column: what a display of the board walks through.
    pub fn rows(&self) -> (rows: Vec<Vec<GameObject>>)
        requires
            self.wf(),
        ensures
            rows@.len() == self@.len(),
            forall|r: int| 0 <= r < rows@.len() ==> (#[trigger] rows@[r])@ == self@[r],
    {
        let n = self.cells.len();
        let mut rows: Vec<Vec<GameObject>> = Vec::new();
        let mut r: usize = 0;
        while r < n
            invariant
                r <= n,
                n == self@.len(),
                self.wf(),
                rows@.len() == r,
                forall|i: int| 0 <= i < r ==> (#[trigger] rows@[i])@ == self@[i],
            decreases n - r,
        {
            let mut row: Vec<GameObject> = Vec::new();
            let mut c: usize = 0;
            while c < n
                invariant
                    c <= n,
                    r < n,
                    n == self@.len(),
                    self.wf(),
                    row@.len() == c,
                    forall|j: int| 0 <= j < c ==> #[trigger] row@[j] == self@[r as int][j],
                decreases n - c,
            {
                row.push(self.cell(r, c));
                c += 1;
            }
            rows.push(row);
            r += 1;
        }
        rows
    }

    /// Puts `kind` on the cell at `(row, col)` and leaves every other cell as
    /// it was.
    pub fn set_cell(&mut self, row: usize, col: usize, kind: GameObject)
        requires
            old(self).wf(),
            row < old(self)@.len(),
            col < old(self)@.len(),
        ensures
            final(self).wf(),
            final(self)@ == old(self)@.update(
                row as int,
                old(self)@[row as int].update(col as int, kind),
            ),
    {
        assert(self@[row as int].len() == self.cells@[row as int]@.len());
        self.cells[row][col].cell_type = kind;
        assert(self@ =~~= old(self)@.update(
            row as int,
            old(self)@[row as int].update(col as int, kind),
        ));
    }
}

impl PartialEq for Board {
    /// Two boards are equal when they have the same cells at the same places.
    fn eq(&self, other: &Board) -> (same: bool) {
        let n = self.cells.len();
        if other.cells.len() != n {
            return false;
        }
        let mut r: usize = 0;
        while r < n
            invariant
                r <= n,
                n == self.cells@.len(),
                n == other.cells@.len(),
                forall|i: int| 0 <= i < r ==> #[trigger] self@[i] == other@[i],
            decreases n - r,
        {
            let m = self.cells[r].len();
            if other.cells[r].len() != m {
                assert(self@[r as int].len() != other@[r as int].len());
                return false;
            }
            let mut c: usize = 0;
            while c < m
                invariant
                    c <= m,
                    r < n,
                    n == self.cells@.len(),
                    n == other.cells@.len(),
                    m == self.cells@[r as int]@.len(),
                    m == other.cells@[r as int]@.len(),
                    forall|j: int|
                        0 <= j < c ==> #[trigger] self@[r as int][j] == other@[r as int][j],
                decreases m - c,
            {
                if self.cells[r][c].cell_type != other.cells[r][c].cell_type {
                    assert(self@[r as int][c as int] != other@[r as int][c as int]);
                    return false;
                }
                c += 1;
            }
            r += 1;
        }
        assert(self@ =~= other@);
        true
    }
}

impl PartialEqSpecImpl for Board {
    open spec fn obeys_eq_spec() -> bool {
        true
    }

    open spec fn eq_spec(&self, other: &Board) -> bool {
        self@ == other@
    }
}

} // verus!
