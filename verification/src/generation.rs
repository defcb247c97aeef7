//! The transition engine: neighbour counting with dead borders and the step
//! from one generation to the next.

use crate::board::{
    all_dead, board_of, height, is_board, live_neighbors, next_cell, occupancy, step, width, Gen,
};
use crate::cell::Cell;
use crate::grid::Grid;
use crate::laws::{lemma_dead_board_is_fixed, lemma_step_shape};
use crate::ui::App;
use vstd::prelude::*;

verus! {

/// Whether `(i, j)` lies on a board of `m` rows and `n` columns.
pub fn is_valid_idx(i: i32, j: i32, m: i32, n: i32) -> (valid: bool)
    ensures
        valid == (0 <= i < m && 0 <= j < n),
{
    i >= 0 && i < m && j >= 0 && j < n
}

/// The eight steps from a square to the squares around it, in the order in
/// which they are visited.
spec fn neighbor_offset(k: int) -> (int, int) {
    if k == 0 {
        (0, 1)
    } else if k == 1 {
        (1, 0)
    } else if k == 2 {
        (0, -1)
    } else if k == 3 {
        (-1, 0)
    } else if k == 4 {
        (1, 1)
    } else if k == 5 {
        (-1, -1)
    } else if k == 6 {
        (-1, 1)
    } else {
        (1, -1)
    }
}

/// The live cells among the first `k` squares around `(r, c)`.
spec fn counted_neighbors(b: Seq<Seq<Cell>>, r: int, c: int, k: nat) -> int
    decreases k,
{
    if k == 0 {
        0
    } else {
        counted_neighbors(b, r, c, (k - 1) as nat) + occupancy(
            b,
            r + neighbor_offset(k - 1).0,
            c + neighbor_offset(k - 1).1,
        )
    }
}

/// Visiting all eight squares counts every neighbour once.
proof fn lemma_counted_all(b: Seq<Seq<Cell>>, r: int, c: int)
    ensures
        counted_neighbors(b, r, c, 8) == live_neighbors(b, r, c),
{
    reveal_with_fuel(counted_neighbors, 9);
}

/// The number of live cells among the eight squares around `(x, y)`, where
/// `x` is the row and `y` the column. Squares outside the board count as
/// dead, so the centre may lie anywhere, on the board or off it.
pub fn get_alive(x: i32, y: i32, cur_gen: &Gen) -> (alive_cnt: i32)
    requires
        is_board(board_of(cur_gen@)),
    ensures
        alive_cnt == live_neighbors(board_of(cur_gen@), x as int, y as int),
        0 <= alive_cnt <= 8,
{
    let mut alive_cnt: i32 = 0;

    let m: i32 = cur_gen.len() as i32;
    let n: i32 = cur_gen[0].len() as i32;
    let dx: [i8; 8] = [0, 1, 0, -1, 1, -1, -1, 1];
    let dy: [i8; 8] = [1, 0, -1, 0, 1, -1, 1, -1];
    let ghost b = board_of(cur_gen@);

    for i in 0..8usize
        invariant
            is_board(b),
            b == board_of(cur_gen@),
            m == b.len(),
            n == b[0].len(),
            dx@ == seq![0i8, 1i8, 0i8, -1i8, 1i8, -1i8, -1i8, 1i8],
            dy@ == seq![1i8, 0i8, -1i8, 0i8, 1i8, -1i8, 1i8, -1i8],
            alive_cnt == counted_neighbors(b, x as int, y as int, i as nat),
            0 <= alive_cnt <= i,
    {
        assert(dx[i as int] == neighbor_offset(i as int).0);
        assert(dy[i as int] == neighbor_offset(i as int).1);
        let nx = x.checked_add(dx[i] as i32);
        let ny = y.checked_add(dy[i] as i32);
        match (nx, ny) {
            (Some(nx), Some(ny)) => {
                if is_valid_idx(nx, ny, m, n) {
                    let cur_cell = cur_gen[nx as usize][ny as usize];
                    assert(cur_cell == b[nx as int][ny as int]);
                    match cur_cell {
                        Cell::Alive => alive_cnt += 1,
                        Cell::Dead => (),
                    }
                }
            },
            _ => (),
        }
    }
    proof {
        lemma_counted_all(b, x as int, y as int);
    }
    alive_cnt
}

/// The rule for one cell, given the number of its live neighbours.
pub fn next_state(cell: Cell, alive: i32) -> (next: Cell)
    ensures
        next == next_cell(cell, alive as int),
{
    match cell {
        Cell::Alive => {
            if alive == 2 || alive == 3 {
                Cell::Alive
            } else {
                Cell::Dead
            }
        },
        Cell::Dead => {
            if alive == 3 {
                Cell::Alive
            } else {
                Cell::Dead
            }
        },
    }
}

/// Row `i` of the generation that follows `cur_gen`.
fn next_row(cur_gen: &Gen, i: usize) -> (row: Vec<Cell>)
    requires
        is_board(board_of(cur_gen@)),
        i < cur_gen.len(),
    ensures
        row@ == step(board_of(cur_gen@))[i as int],
{
    let n: usize = cur_gen[0].len();
    let ghost b = board_of(cur_gen@);
    let mut row: Vec<Cell> = Vec::new();
    for j in 0..n
        invariant
            is_board(b),
            b == board_of(cur_gen@),
            i < b.len(),
            n == b[0].len(),
            row.len() == j,
            forall|c: int|
                0 <= c < j ==> row[c] == next_cell(b[i as int][c], live_neighbors(b, i as int, c)),
    {
        let alive = get_alive(i as i32, j as i32, cur_gen);
        let cell = cur_gen[i][j];
        assert(cell == b[i as int][j as int]);
        row.push(next_state(cell, alive));
    }
    assert(row@ =~= step(b)[i as int]);
    row
}

/// The generation that follows `cur_gen`. Every cell is computed from
/// `cur_gen` alone, which is left as it was; the result has the same height
/// and width.
pub fn successor(cur_gen: &Gen) -> (nxt_gen: Gen)
    requires
        is_board(board_of(cur_gen@)),
    ensures
        board_of(nxt_gen@) == step(board_of(cur_gen@)),
        is_board(board_of(nxt_gen@)),
        height(board_of(nxt_gen@)) == height(board_of(cur_gen@)),
        width(board_of(nxt_gen@)) == width(board_of(cur_gen@)),
{
    let m: usize = cur_gen.len();
    let ghost b = board_of(cur_gen@);
    let mut nxt_gen: Gen = Vec::new();
    for i in 0..m
        invariant
            is_board(b),
            b == board_of(cur_gen@),
            m == b.len(),
            nxt_gen.len() == i,
            forall|r: int| 0 <= r < i ==> (#[trigger] nxt_gen[r])@ == step(b)[r],
    {
        let row = next_row(cur_gen, i);
        nxt_gen.push(row);
    }
    assert(board_of(nxt_gen@) =~= step(b));
    proof {
        lemma_step_shape(b);
    }
    nxt_gen
}

/// The grid of the next generation. The grid given is only read, and the
/// new grid has its height and width. A grid without a live cell is
/// followed by an equal grid.
pub fn advance(grid: &Grid) -> (next: Grid)
    ensures
        is_board(grid@),
        is_board(next@),
        next@ == step(grid@),
        height(next@) == height(grid@),
        width(next@) == width(grid@),
        all_dead(grid@) ==> next@ == grid@,
{
    let next = Grid::adopt(successor(grid.rows()));
    proof {
        if all_dead(grid@) {
            lemma_dead_board_is_fixed(grid@);
        }
    }
    next
}

/// Moves the application on by one generation: the generation on show is
/// replaced by its successor, and a copy of the new generation is handed
/// back. Every new cell is computed from the old generation alone.
pub fn next_gen(app: &mut App) -> (nxt_gen: Gen)
    requires
        is_board(board_of(old(app).cur_gen@)),
    ensures
        board_of(nxt_gen@) == step(board_of(old(app).cur_gen@)),
        board_of(final(app).cur_gen@) == board_of(nxt_gen@),
        is_board(board_of(nxt_gen@)),
        height(board_of(nxt_gen@)) == height(board_of(old(app).cur_gen@)),
        width(board_of(nxt_gen@)) == width(board_of(old(app).cur_gen@)),
        final(app).items == old(app).items,
        final(app).flag_cur == old(app).flag_cur,
        final(app).layout == old(app).layout,
{
    let nxt_gen = successor(&app.cur_gen);
    app.cur_gen = nxt_gen.clone();
    assert(board_of(app.cur_gen@) =~= board_of(nxt_gen@));
    nxt_gen
}

} // verus!
