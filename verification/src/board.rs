//! The grid the game is played on.

use crate::chance::sample_ratio;
use crate::geometry::Cell;
use vstd::prelude::*;

verus! {

/// Number of rows of every board.
pub const BOARD_ROWS: usize = 20;

/// Number of columns of every board.
pub const BOARD_COLS: usize = 20;

/// The first and the last `LANE_ROWS` rows are spawn lanes and never hold a
/// block.
pub const LANE_ROWS: usize = 2;

/// A cell outside the spawn lanes is a block with probability
/// `BLOCK_ODDS / BLOCK_ODDS_OUT_OF`.
pub const BLOCK_ODDS: u32 = 1;

/// See [`BLOCK_ODDS`].
pub const BLOCK_ODDS_OUT_OF: u32 = 10;

/// What a cell holds. Fixed once the board exists.
#[derive(Clone, Copy, Debug, PartialEq, Eq, Structural)]
pub enum Square {
    Empty,
    Block,
}

/// Whether `cell` lies on the board.
pub open spec fn in_bounds(cell: Cell) -> bool {
    cell.0 < BOARD_ROWS && cell.1 < BOARD_COLS
}

/// Whether `row` belongs to one of the two spawn lanes.
pub open spec fn is_lane_row(row: int) -> bool {
    row < LANE_ROWS || row >= BOARD_ROWS - LANE_ROWS
}

/// The square a cell of `row` receives when its random draw is `blocked`:
/// draws only count outside the spawn lanes.
pub open spec fn placed(row: int, blocked: bool) -> Square {
    if blocked && !is_lane_row(row) {
        Square::Block
    } else {
        Square::Empty
    }
}

/// Rows of squares as a grid of plain sequences.
pub open spec fn grid_of(rows: Seq<Vec<Square>>) -> Seq<Seq<Square>> {
    Seq::new(rows.len(), |r: int| rows[r]@)
}

/// A grid is a board when it has the fixed dimensions and its spawn lanes are
/// empty.
pub open spec fn grid_wf(grid: Seq<Seq<Square>>) -> bool {
    &&& grid.len() == BOARD_ROWS
    &&& forall|r: int| 0 <= r < BOARD_ROWS ==> (#[trigger] grid[r]).len() == BOARD_COLS
    &&& forall|r: int, c: int|
        0 <= r < BOARD_ROWS && 0 <= c < BOARD_COLS && is_lane_row(r) ==> #[trigger] grid[r][c]
            == Square::Empty
}

/// Whether `cell` is on the board and empty.
pub open spec fn is_free(grid: Seq<Seq<Square>>, cell: Cell) -> bool {
    in_bounds(cell) && grid[cell.0 as int][cell.1 as int] == Square::Empty
}

/// Whether every cell of the grid is empty.
pub open spec fn all_empty(grid: Seq<Seq<Square>>) -> bool {
    forall|r: int, c: int|
        0 <= r < grid.len() && 0 <= c < grid[r].len() ==> #[trigger] grid[r][c] == Square::Empty
}

/// Decides whether `cell` lies on the board.
pub fn cell_in_bounds(cell: Cell) -> (inside: bool)
    ensures
        inside == in_bounds(cell),
{
    cell.0 < BOARD_ROWS && cell.1 < BOARD_COLS
}

/// Decides whether `row` belongs to a spawn lane.
pub fn row_in_lane(row: usize) -> (lane: bool)
    ensures
        lane == is_lane_row(row as int),
{
    row < LANE_ROWS || row >= BOARD_ROWS - LANE_ROWS
}

/// Turns one random draw into the square for a cell of `row`.
pub fn place_square(row: usize, blocked: bool) -> (square: Square)
    ensures
        square == placed(row as int, blocked),
{
    if blocked && !row_in_lane(row) {
        Square::Block
    } else {
        Square::Empty
    }
}

/// A `BOARD_ROWS` by `BOARD_COLS` grid of squares with empty spawn lanes.
pub struct Board {
    rows: Vec<Vec<Square>>,
}

impl View for Board {
    type V = Seq<Seq<Square>>;

    closed spec fn view(&self) -> Seq<Seq<Square>> {
        grid_of(self.rows@)
    }
}

impl Board {
    /// The invariant of every board handed out by this module.
    pub open spec fn wf(&self) -> bool {
        grid_wf(self@)
    }

    /// The board without any block.
    pub fn empty() -> (board: Board)
        ensures
            board.wf(),
            all_empty(board@),
    {
        let mut rows: Vec<Vec<Square>> = Vec::new();
        let mut r: usize = 0;
        while r < BOARD_ROWS
            invariant
                r <= BOARD_ROWS,
                rows.len() == r,
                forall|i: int| 0 <= i < r ==> (#[trigger] rows[i]).len() == BOARD_COLS,
                forall|i: int, c: int|
                    0 <= i < r && 0 <= c < BOARD_COLS ==> #[trigger] rows[i][c] == Square::Empty,
            decreases BOARD_ROWS - r,
        {
            let mut row: Vec<Square> = Vec::new();
            let mut c: usize = 0;
            while c < BOARD_COLS
                invariant
                    c <= BOARD_COLS,
                    row.len() == c,
                    forall|j: int| 0 <= j < c ==> #[trigger] row[j] == Square::Empty,
                decreases BOARD_COLS - c,
            {
                row.push(Square::Empty);
                c += 1;
            }
            rows.push(row);
            r += 1;
        }
        Board { rows }
    }

    /// A board with freshly drawn blocks: every cell outside the spawn lanes
    /// is drawn on its own. Whatever the draws, the result is a board.
    pub fn generate() -> (board: Board)
        ensures
            board.wf(),
    {
        let mut rows: Vec<Vec<Square>> = Vec::new();
        let mut r: usize = 0;
        while r < BOARD_ROWS
            invariant
                r <= BOARD_ROWS,
                rows.len() == r,
                forall|i: int| 0 <= i < r ==> (#[trigger] rows[i]).len() == BOARD_COLS,
                forall|i: int, c: int|
                    0 <= i < r && 0 <= c < BOARD_COLS && is_lane_row(i) ==> #[trigger] rows[i][c]
                        == Square::Empty,
            decreases BOARD_ROWS - r,
        {
            let lane = row_in_lane(r);
            let mut row: Vec<Square> = Vec::new();
            let mut c: usize = 0;
            while c < BOARD_COLS
                invariant
                    c <= BOARD_COLS,
                    row.len() == c,
                    lane == is_lane_row(r as int),
                    forall|j: int| 0 <= j < c && lane ==> #[trigger] row[j] == Square::Empty,
                decreases BOARD_COLS - c,
            {
                let blocked = !lane && sample_ratio(BLOCK_ODDS, BLOCK_ODDS_OUT_OF);
                row.push(place_square(r, blocked));
                c += 1;
            }
            rows.push(row);
            r += 1;
        }
        Board { rows }
    }

    /// Accepts `rows` as a board if they have the fixed dimensions and leave
    /// the spawn lanes empty.
    pub fn from_rows(rows: Vec<Vec<Square>>) -> (board: Option<Board>)
        ensures
            board is Some <==> grid_wf(grid_of(rows@)),
            board matches Some(b) ==> b.wf() && b@ == grid_of(rows@),
    {
        if rows.len() != BOARD_ROWS {
            return None;
        }
        let mut r: usize = 0;
        while r < BOARD_ROWS
            invariant
                r <= BOARD_ROWS,
                rows.len() == BOARD_ROWS,
                forall|i: int| 0 <= i < r ==> (#[trigger] rows[i]).len() == BOARD_COLS,
                forall|i: int, c: int|
                    0 <= i < r && 0 <= c < BOARD_COLS && is_lane_row(i) ==> #[trigger] rows[i][c]
                        == Square::Empty,
            decreases BOARD_ROWS - r,
        {
            if rows[r].len() != BOARD_COLS {
                assert(grid_of(rows@)[r as int].len() != BOARD_COLS);
                return None;
            }
            if row_in_lane(r) {
                let mut c: usize = 0;
                while c < BOARD_COLS
                    invariant
                        c <= BOARD_COLS,
                        r < BOARD_ROWS,
                        rows.len() == BOARD_ROWS,
                        rows[r as int].len() == BOARD_COLS,
                        is_lane_row(r as int),
                        forall|j: int| 0 <= j < c ==> #[trigger] rows[r as int][j] == Square::Empty,
                    decreases BOARD_COLS - c,
                {
                    if rows[r][c] != Square::Empty {
                        assert(grid_of(rows@)[r as int][c as int] != Square::Empty);
                        return None;
                    }
                    c += 1;
                }
            }
            r += 1;
        }
        Some(Board { rows })
    }

    /// The square at `cell`, or `None` off the board.
    pub fn square(&self, cell: Cell) -> (square: Option<Square>)
        requires
            self.wf(),
        ensures
            square == if in_bounds(cell) {
                Some(self@[cell.0 as int][cell.1 as int])
            } else {
                None
            },
    {
        if cell_in_bounds(cell) {
            assert(self@[cell.0 as int].len() == BOARD_COLS);
            Some(self.rows[cell.0][cell.1])
        } else {
            None
        }
    }

    /// Whether `cell` is on the board and empty.
    pub fn is_free(&self, cell: Cell) -> (free: bool)
        requires
            self.wf(),
        ensures
            free == is_free(self@, cell),
    {
        match self.square(cell) {
            Some(Square::Empty) => true,
            _ => false,
        }
    }

    /// A copy of the squares, row by row.
    pub fn to_rows(&self) -> (rows: Vec<Vec<Square>>)
        requires
            self.wf(),
        ensures
            grid_of(rows@) == self@,
    {
        let mut rows: Vec<Vec<Square>> = Vec::new();
        let mut r: usize = 0;
        while r < BOARD_ROWS
            invariant
                r <= BOARD_ROWS,
                self.wf(),
                rows.len() == r,
                forall|i: int| 0 <= i < r ==> (#[trigger] rows[i])@ == self@[i],
            decreases BOARD_ROWS - r,
        {
            assert(self@[r as int].len() == BOARD_COLS);
            let mut row: Vec<Square> = Vec::new();
            let mut c: usize = 0;
            while c < BOARD_COLS
                invariant
                    c <= BOARD_COLS,
                    r < BOARD_ROWS,
                    self.rows.len() == BOARD_ROWS,
                    self.rows[r as int].len() == BOARD_COLS,
                    row.len() == c,
                    forall|j: int| 0 <= j < c ==> #[trigger] row[j] == self.rows[r as int][j],
                decreases BOARD_COLS - c,
            {
                row.push(self.rows[r][c]);
                c += 1;
            }
            rows.push(row);
            r += 1;
        }
        rows
    }
}

} // verus!
