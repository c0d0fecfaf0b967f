//! The board as the search sees it: who occupies which cell.

use crate::rusthello::score::Side;
use vstd::prelude::*;

verus! {

/// Number of rows, and of columns, of the board.
pub const BOARD_SIZE: usize = 8;

/// Number of cells of the board.
pub const NUM_CELLS: usize = 64;

/// What stops a search. Each of these shows a fault of the caller or of the
/// rules handed to the search; none is recovered from.
#[derive(Clone, Copy, Debug, PartialEq, Eq, Structural)]
pub enum SearchError {
    /// A move was asked for that the position does not allow.
    IllegalMove,
    /// A cell outside the board was looked at.
    OutOfBounds,
    /// A move was to be chosen where none can be made.
    NoLegalMoves,
    /// A task evaluating one candidate did not deliver its score.
    TaskFailure,
}

/// A cell of the board, by row and column.
#[derive(Clone, Copy, Debug, PartialEq, Eq, Structural)]
pub struct Coord {
    pub row: usize,
    pub col: usize,
}

impl Coord {
    /// The cell in row `row` and column `col`.
    pub fn new(row: usize, col: usize) -> (c: Coord)
        ensures
            c == (Coord { row, col }),
    {
        Coord { row, col }
    }

    /// Whether the cell lies on the board.
    pub open spec fn on_board(self) -> bool {
        self.row < BOARD_SIZE && self.col < BOARD_SIZE
    }

    /// The place of the cell in a row-by-row listing of the board.
    pub open spec fn index(self) -> int {
        self.row * BOARD_SIZE + self.col
    }
}

/// The occupant of every cell, row by row.
#[derive(Clone, Copy, Debug)]
pub struct Board {
    cells: [Option<Side>; 64],
}

impl View for Board {
    type V = Seq<Option<Side>>;

    closed spec fn view(&self) -> Seq<Option<Side>> {
        self.cells@
    }
}

impl Board {
    /// The empty board.
    pub fn new() -> (b: Board)
        ensures
            b@ == Seq::new(NUM_CELLS as nat, |i: int| None::<Side>),
    {
        let b = Board { cells: [None; 64] };
        assert(b@ =~= Seq::new(NUM_CELLS as nat, |i: int| None::<Side>));
        b
    }

    /// A board always lists all of its cells.
    pub proof fn lemma_len(self)
        ensures
            self@.len() == NUM_CELLS,
    {
    }

    /// The occupant of `coord`; `OutOfBounds` exactly when `coord` is not on
    /// the board.
    pub fn get_cell(&self, coord: Coord) -> (r: Result<Option<Side>, SearchError>)
        ensures
            self@.len() == NUM_CELLS,
            r == (if coord.on_board() {
                Ok(self@[coord.index()])
            } else {
                Err(SearchError::OutOfBounds)
            }),
    {
        if coord.row < BOARD_SIZE && coord.col < BOARD_SIZE {
            Ok(self.cells[coord.row * BOARD_SIZE + coord.col])
        } else {
            Err(SearchError::OutOfBounds)
        }
    }

    /// Puts `occupant` on `coord` and leaves the other cells as they are;
    /// `OutOfBounds`, and no change, exactly when `coord` is not on the
    /// board.
    pub fn set_cell(&mut self, coord: Coord, occupant: Option<Side>) -> (r: Result<
        (),
        SearchError,
    >)
        ensures
            final(self)@ == (if coord.on_board() {
                old(self)@.update(coord.index(), occupant)
            } else {
                old(self)@
            }),
            r == (if coord.on_board() {
                Ok(())
            } else {
                Err(SearchError::OutOfBounds)
            }),
    {
        if coord.row < BOARD_SIZE && coord.col < BOARD_SIZE {
            self.cells[coord.row * BOARD_SIZE + coord.col] = occupant;
            Ok(())
        } else {
            Err(SearchError::OutOfBounds)
        }
    }
}

} // verus!
