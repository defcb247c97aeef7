//! The mathematical model: a board is a sequence of rows of cells, and one
//! generation follows from the previous one by a rule applied to every cell
//! at once.

use crate::cell::Cell;
use vstd::prelude::*;

verus! {

/// The rows of a generation as they are held in memory.
pub type Gen = Vec<Vec<Cell>>;

/// The board that a vector of rows stands for.
pub open spec fn board_of(rows: Seq<Vec<Cell>>) -> Seq<Seq<Cell>> {
    Seq::new(rows.len(), |r: int| rows[r]@)
}

/// A board is a rectangle of at least one cell whose height and width fit
/// the signed 32-bit coordinates by which cells are addressed.
pub open spec fn is_board(b: Seq<Seq<Cell>>) -> bool {
    &&& 1 <= b.len() <= i32::MAX
    &&& 1 <= b[0].len() <= i32::MAX
    &&& forall|r: int| 0 <= r < b.len() ==> (#[trigger] b[r]).len() == b[0].len()
}

/// The number of rows.
pub open spec fn height(b: Seq<Seq<Cell>>) -> int {
    b.len() as int
}

/// The number of cells in each row.
pub open spec fn width(b: Seq<Seq<Cell>>) -> int {
    if b.len() == 0 {
        0
    } else {
        b[0].len() as int
    }
}

/// Whether `(r, c)` names a square of the board.
pub open spec fn on_board(b: Seq<Seq<Cell>>, r: int, c: int) -> bool {
    0 <= r < height(b) && 0 <= c < width(b)
}

/// Whether there is a live cell at `(r, c)`. Squares outside the board hold
/// no live cell.
pub open spec fn alive_at(b: Seq<Seq<Cell>>, r: int, c: int) -> bool {
    on_board(b, r, c) && b[r][c] == Cell::Alive
}

/// What the square at `(r, c)` adds to a neighbour count: one if a live cell
/// is there, nothing otherwise.
pub open spec fn occupancy(b: Seq<Seq<Cell>>, r: int, c: int) -> int {
    if alive_at(b, r, c) {
        1
    } else {
        0
    }
}

/// The number of live cells among the eight squares around `(r, c)`.
pub open spec fn live_neighbors(b: Seq<Seq<Cell>>, r: int, c: int) -> int {
    occupancy(b, r - 1, c - 1) + occupancy(b, r - 1, c) + occupancy(b, r - 1, c + 1)
        + occupancy(b, r, c - 1) + occupancy(b, r, c + 1)
        + occupancy(b, r + 1, c - 1) + occupancy(b, r + 1, c) + occupancy(b, r + 1, c + 1)
}

/// The rule: a live cell survives with two or three live neighbours, a dead
/// cell comes alive with exactly three, every other cell is dead.
pub open spec fn next_cell(cell: Cell, neighbors: int) -> Cell {
    match cell {
        Cell::Alive => if neighbors == 2 || neighbors == 3 {
            Cell::Alive
        } else {
            Cell::Dead
        },
        Cell::Dead => if neighbors == 3 {
            Cell::Alive
        } else {
            Cell::Dead
        },
    }
}

/// The generation that follows `b`: every cell is the rule applied to the
/// cell and the neighbour count it has in `b`.
pub open spec fn step(b: Seq<Seq<Cell>>) -> Seq<Seq<Cell>> {
    Seq::new(
        b.len(),
        |r: int| Seq::new(width(b) as nat, |c: int| next_cell(b[r][c], live_neighbors(b, r, c))),
    )
}

/// Whether no cell of the board is alive.
pub open spec fn all_dead(b: Seq<Seq<Cell>>) -> bool {
    forall|r: int, c: int| on_board(b, r, c) ==> !alive_at(b, r, c)
}

} // verus!
