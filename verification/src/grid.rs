//! The grid: a board that is known to be a rectangle, built once and then
//! only read.

use crate::board::{board_of, height, is_board, on_board, width, Gen};
use crate::cell::Cell;
use vstd::prelude::*;

verus! {

/// Why a grid could not be built or read.
#[derive(Clone, Copy, Debug, PartialEq, Eq, Structural)]
pub enum GridError {
    /// A grid was asked for with a width or a height below one, or from rows
    /// or a text that form no rectangle.
    InvalidDimension,
    /// A cell was asked for at a position outside the grid.
    OutOfBounds,
}

/// A rectangular board of cells with fixed dimensions. A grid is never
/// changed after it was built: the next generation is a new grid.
#[derive(Debug)]
pub struct Grid {
    rows: Gen,
}

impl View for Grid {
    type V = Seq<Seq<Cell>>;

    closed spec fn view(&self) -> Seq<Seq<Cell>> {
        board_of(self.rows@)
    }
}

/// Whether the rows form a board: at least one row, at least one cell in
/// it, every row as long as the first, and no more rows or columns than
/// `i32::MAX`.
pub fn is_playable(rows: &Gen) -> (ok: bool)
    ensures
        ok == is_board(board_of(rows@)),
{
    let m = rows.len();
    if m == 0 || m > i32::MAX as usize {
        return false;
    }
    let n = rows[0].len();
    if n == 0 || n > i32::MAX as usize {
        return false;
    }
    let ghost b = board_of(rows@);
    for i in 0..m
        invariant
            b == board_of(rows@),
            m == b.len(),
            n == b[0].len(),
            1 <= m <= i32::MAX,
            1 <= n <= i32::MAX,
            forall|r: int| 0 <= r < i ==> (#[trigger] b[r]).len() == n,
    {
        if rows[i].len() != n {
            assert(b[i as int].len() != b[0].len());
            return false;
        }
    }
    true
}

impl Grid {
    #[verifier::type_invariant]
    spec fn well_formed(&self) -> bool {
        is_board(board_of(self.rows@))
    }

    /// Takes over rows that are known to form a board.
    pub(crate) fn adopt(rows: Gen) -> (grid: Grid)
        requires
            is_board(board_of(rows@)),
        ensures
            grid@ == board_of(rows@),
            is_board(grid@),
    {
        Grid { rows }
    }

    /// A grid of `height` rows and `width` columns whose cell at row `r` and
    /// column `c` is what `initializer` returns for `(r, c)`. The cells are
    /// asked for row by row, each row from its first column on. A width or a
    /// height below one is refused with `InvalidDimension`, and nothing else
    /// is.
    pub fn create<F: Fn(i32, i32) -> Cell>(width: i32, height: i32, initializer: F) -> (result:
        Result<Grid, GridError>)
        requires
            forall|r: i32, c: i32|
                0 <= r < height && 0 <= c < width ==> call_requires(initializer, (r, c)),
        ensures
            width <= 0 || height <= 0 ==> result == Err::<Grid, GridError>(
                GridError::InvalidDimension,
            ),
            width >= 1 && height >= 1 ==> result is Ok,
            result matches Ok(grid) ==> {
                &&& is_board(grid@)
                &&& crate::board::height(grid@) == height
                &&& crate::board::width(grid@) == width
                &&& forall|r: i32, c: i32|
                    0 <= r < height && 0 <= c < width ==> call_ensures(
                        initializer,
                        (r, c),
                        #[trigger] grid@[r as int][c as int],
                    )
            },
    {
        if width <= 0 || height <= 0 {
            return Err(GridError::InvalidDimension);
        }
        let mut rows: Gen = Vec::new();
        let mut r: i32 = 0;
        while r < height
            invariant
                width >= 1,
                height >= 1,
                0 <= r <= height,
                rows.len() == r,
                forall|i: i32, c: i32|
                    0 <= i < height && 0 <= c < width ==> call_requires(initializer, (i, c)),
                forall|i: int| 0 <= i < r ==> (#[trigger] rows[i]).len() == width,
                forall|i: i32, c: i32|
                    0 <= i < r && 0 <= c < width ==> call_ensures(
                        initializer,
                        (i, c),
                        #[trigger] rows[i as int][c as int],
                    ),
            decreases height - r,
        {
            let mut row: Vec<Cell> = Vec::new();
            let mut c: i32 = 0;
            while c < width
                invariant
                    0 <= r < height,
                    0 <= c <= width,
                    row.len() == c,
                    forall|i: i32, k: i32|
                        0 <= i < height && 0 <= k < width ==> call_requires(initializer, (i, k)),
                    forall|k: i32|
                        0 <= k < c ==> call_ensures(initializer, (r, k), #[trigger] row[k as int]),
                decreases width - c,
            {
                let cell = initializer(r, c);
                row.push(cell);
                c = c + 1;
            }
            rows.push(row);
            r = r + 1;
        }
        let ghost b = board_of(rows@);
        assert(is_board(b));
        assert forall|i: i32, c: i32| 0 <= i < height && 0 <= c < width implies call_ensures(
            initializer,
            (i, c),
            #[trigger] b[i as int][c as int],
        ) by {
            assert(b[i as int][c as int] == rows[i as int][c as int]);
        }
        Ok(Grid { rows })
    }

    /// The grid that holds the given rows. Rows that form no board (no row,
    /// an empty row, rows of different lengths, more than `i32::MAX` rows or
    /// columns) are refused with `InvalidDimension`, and nothing else is.
    pub fn from_rows(rows: Gen) -> (result: Result<Grid, GridError>)
        ensures
            is_board(board_of(rows@)) ==> result is Ok,
            !is_board(board_of(rows@)) ==> result == Err::<Grid, GridError>(
                GridError::InvalidDimension,
            ),
            result matches Ok(grid) ==> grid@ == board_of(rows@),
    {
        if is_playable(&rows) {
            Ok(Grid { rows })
        } else {
            Err(GridError::InvalidDimension)
        }
    }

    /// The cell at row `row` and column `col`. A position outside the grid,
    /// a negative one too, is refused with `OutOfBounds`, and nothing else
    /// is.
    pub fn get(&self, row: i32, col: i32) -> (result: Result<Cell, GridError>)
        ensures
            is_board(self@),
            on_board(self@, row as int, col as int) ==> result == Ok::<Cell, GridError>(
                self@[row as int][col as int],
            ),
            !on_board(self@, row as int, col as int) ==> result == Err::<Cell, GridError>(
                GridError::OutOfBounds,
            ),
    {
        proof {
            use_type_invariant(self);
        }
        if row < 0 || col < 0 {
            return Err(GridError::OutOfBounds);
        }
        if row as usize >= self.rows.len() || col as usize >= self.rows[0].len() {
            return Err(GridError::OutOfBounds);
        }
        assert(self@[row as int].len() == self@[0].len());
        Ok(self.rows[row as usize][col as usize])
    }

    /// The height and the width of the grid, in this order.
    pub fn dimensions(&self) -> (dims: (i32, i32))
        ensures
            is_board(self@),
            dims.0 == height(self@),
            dims.1 == width(self@),
    {
        proof {
            use_type_invariant(self);
        }
        (self.rows.len() as i32, self.rows[0].len() as i32)
    }

    /// The rows of the grid.
    pub fn rows(&self) -> (rows: &Gen)
        ensures
            is_board(self@),
            board_of(rows@) == self@,
    {
        proof {
            use_type_invariant(self);
        }
        &self.rows
    }
}

} // verus!
