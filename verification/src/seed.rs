//! Random seeding: a board whose cells are drawn one by one.

use crate::board::{board_of, height, is_board, width, Gen};
use crate::cell::Cell;
use crate::ui::App;
use rand::{thread_rng, Rng};
use vstd::prelude::*;

verus! {

/// The number of rows of a seeded board.
pub const SEED_ROWS: u16 = 44;

/// The number of columns of a seeded board.
pub const SEED_COLS: u16 = 72;

/// The numbers from which a cell is drawn are those below this one.
pub const SEED_DRAWS: usize = 10;

/// A number drawn from rand's generator of the current thread by
/// `Rng::gen_range` on the range from zero up to `bound`, `bound` left out.
/// The contract states the one thing that rand promises of every draw: that
/// it lies in the range. rand panics on an empty range, which `requires`
/// leaves out, and where the operating system gives the generator no seed.
#[verifier::external_body]
fn draw_below(bound: usize) -> (draw: usize)
    requires
        bound > 0,
    ensures
        draw < bound,
{
    thread_rng().gen_range(0..bound)
}

/// The cell that a draw stands for: of every five numbers in a row the
/// third and the fifth give a live cell, so two cells in five are alive.
pub open spec fn seeded_cell(draw: int) -> Cell {
    if draw % 5 == 2 || draw % 5 == 4 {
        Cell::Alive
    } else {
        Cell::Dead
    }
}

/// The cell for a number that was drawn.
pub fn seed_cell(draw: usize) -> (cell: Cell)
    ensures
        cell == seeded_cell(draw as int),
{
    let cells: [Cell; 5] = [Cell::Dead, Cell::Dead, Cell::Alive, Cell::Dead, Cell::Alive];
    cells[draw % 5]
}

/// The board that a run of draws stands for: the cell at row `r` and column
/// `c` is the cell of draw number `r * cols + c`, so the draws fill the
/// board row by row, each row from its first column on, one draw for each
/// cell.
pub open spec fn seeded_board(draws: Seq<usize>, rows: int, cols: int) -> Seq<Seq<Cell>> {
    Seq::new(
        rows as nat,
        |r: int| Seq::new(cols as nat, |c: int| seeded_cell(draws[r * cols + c] as int)),
    )
}

/// Whether the draws are as many as the board has cells, each of them below
/// `SEED_DRAWS`.
pub open spec fn draws_for(draws: Seq<usize>, rows: int, cols: int) -> bool {
    &&& draws.len() == rows * cols
    &&& forall|k: int| 0 <= k < draws.len() ==> #[trigger] draws[k] < SEED_DRAWS
}

/// Whether the board is the board of some run of draws.
pub open spec fn is_seeded(b: Seq<Seq<Cell>>, rows: int, cols: int) -> bool {
    exists|draws: Seq<usize>|
        draws_for(draws, rows, cols) && #[trigger] seeded_board(draws, rows, cols) == b
}

/// The rows of the board that the draws stand for.
pub fn gen_of_draws(draws: &Vec<usize>, rows: u16, cols: u16) -> (grid: Gen)
    requires
        draws@.len() == rows * cols,
    ensures
        board_of(grid@) == seeded_board(draws@, rows as int, cols as int),
{
    let ghost b = seeded_board(draws@, rows as int, cols as int);
    let mut grid: Gen = Vec::new();
    let mut k: usize = 0;
    assert(0 * cols == 0);
    for i in 0..rows
        invariant
            draws@.len() == rows * cols,
            b == seeded_board(draws@, rows as int, cols as int),
            k == i * cols,
            grid.len() == i,
            forall|r: int| 0 <= r < i ==> (#[trigger] grid[r])@ == b[r],
    {
        assert((i + 1) * cols == i * cols + cols && (i + 1) * cols <= rows * cols)
            by (nonlinear_arith)
            requires
                0 <= i < rows,
                0 <= cols,
        ;
        let mut row: Vec<Cell> = Vec::new();
        for j in 0..cols
            invariant
                draws@.len() == rows * cols,
                i * cols + cols <= rows * cols,
                k == i * cols + j,
                row.len() == j,
                forall|c: int|
                    0 <= c < j ==> #[trigger] row[c] == seeded_cell(draws[i * cols + c] as int),
        {
            assert(k < draws.len());
            row.push(seed_cell(draws[k]));
            k = k + 1;
        }
        assert(row@ =~= b[i as int]);
        grid.push(row);
    }
    assert(board_of(grid@) =~= b);
    grid
}

/// `count` numbers below `bound`, drawn one after the other.
fn draw_all(count: usize, bound: usize) -> (draws: Vec<usize>)
    requires
        bound > 0,
    ensures
        draws@.len() == count,
        forall|k: int| 0 <= k < count ==> #[trigger] draws[k] < bound,
{
    let mut draws: Vec<usize> = Vec::new();
    for n in 0..count
        invariant
            bound > 0,
            draws.len() == n,
            forall|k: int| 0 <= k < n ==> #[trigger] draws[k] < bound,
    {
        draws.push(draw_below(bound));
    }
    draws
}

/// A board of `rows` rows and `cols` columns. One number below `SEED_DRAWS`
/// is drawn for each cell, row by row, and the board is the one that
/// `gen_of_draws` makes of these draws. Which numbers are drawn is left to
/// chance: of the board itself the contract states the shape, and that it
/// is the board of some run of draws.
pub fn random_gen(rows: u16, cols: u16) -> (grid: Gen)
    ensures
        is_seeded(board_of(grid@), rows as int, cols as int),
        grid@.len() == rows,
        forall|r: int| 0 <= r < rows ==> (#[trigger] grid[r]).len() == cols,
        rows >= 1 && cols >= 1 ==> is_board(board_of(grid@)),
{
    assert(rows * cols <= 65535 * 65535) by (nonlinear_arith)
        requires
            0 <= rows <= 65535,
            0 <= cols <= 65535,
    ;
    let count: usize = rows as usize * cols as usize;
    let draws = draw_all(count, SEED_DRAWS);
    let grid = gen_of_draws(&draws, rows, cols);
    proof {
        let b = board_of(grid@);
        assert(draws_for(draws@, rows as int, cols as int));
        assert(seeded_board(draws@, rows as int, cols as int) == b);
        assert(b.len() == rows);
        assert forall|r: int| 0 <= r < rows implies (#[trigger] grid[r]).len() == cols by {
            assert(b[r] == grid[r]@);
        }
        if rows >= 1 && cols >= 1 {
            assert(b[0].len() == cols);
        }
    }
    grid
}

/// A freshly seeded board of `SEED_ROWS` rows and `SEED_COLS` columns, made
/// as `random_gen` makes it. The application is marked as having a
/// generation to show; the board itself is handed back and the application
/// is otherwise left as it was.
pub fn new_gen(app: &mut App) -> (grid: Gen)
    ensures
        final(app).flag_cur,
        final(app).items == old(app).items,
        final(app).layout == old(app).layout,
        final(app).cur_gen == old(app).cur_gen,
        is_seeded(board_of(grid@), SEED_ROWS as int, SEED_COLS as int),
        is_board(board_of(grid@)),
        height(board_of(grid@)) == SEED_ROWS,
        width(board_of(grid@)) == SEED_COLS,
{
    app.flag_cur = true;
    let grid = random_gen(SEED_ROWS, SEED_COLS);
    assert(board_of(grid@)[0] == grid[0]@);
    grid
}

} // verus!
