//! What holds of every board: laws of the step from one generation to the
//! next, each proved from the model.

use crate::board::{
    alive_at, all_dead, height, is_board, live_neighbors, next_cell, on_board, step, width,
};
use crate::cell::Cell;
use vstd::prelude::*;

verus! {

/// A step keeps the height and the width, and each cell of the new board is
/// the rule applied to the old cell and to the neighbour count it had on the
/// old board.
pub proof fn lemma_step_shape(b: Seq<Seq<Cell>>)
    requires
        is_board(b),
    ensures
        is_board(step(b)),
        height(step(b)) == height(b),
        width(step(b)) == width(b),
        forall|r: int, c: int|
            on_board(b, r, c) ==> (#[trigger] step(b)[r][c]) == next_cell(
                b[r][c],
                live_neighbors(b, r, c),
            ),
{
}

/// Two boards of one shape with live cells at the same squares are equal.
pub proof fn lemma_same_cells(a: Seq<Seq<Cell>>, b: Seq<Seq<Cell>>)
    requires
        is_board(a),
        is_board(b),
        height(a) == height(b),
        width(a) == width(b),
        forall|r: int, c: int| on_board(a, r, c) ==> (alive_at(a, r, c) <==> alive_at(b, r, c)),
    ensures
        a == b,
{
    assert forall|r: int| 0 <= r < a.len() implies a[r] =~= b[r] by {
        assert(a[r].len() == a[0].len());
        assert(b[r].len() == b[0].len());
        assert forall|c: int| 0 <= c < a[r].len() implies a[r][c] == b[r][c] by {
            assert(on_board(a, r, c));
            assert(alive_at(a, r, c) <==> alive_at(b, r, c));
        }
    }
    assert(a =~= b);
}

/// A board without a live cell is its own successor: nothing is born on an
/// empty board, whatever its size.
pub proof fn lemma_dead_board_is_fixed(b: Seq<Seq<Cell>>)
    requires
        is_board(b),
        all_dead(b),
    ensures
        step(b) == b,
        all_dead(step(b)),
{
    lemma_step_shape(b);
    assert forall|r: int, c: int| on_board(b, r, c) implies (alive_at(step(b), r, c) <==> alive_at(
        b,
        r,
        c,
    )) by {
        lemma_no_neighbors_on_dead_board(b, r, c);
        assert(!alive_at(b, r, c));
    }
    lemma_same_cells(step(b), b);
}

/// On a board without a live cell no square has a live neighbour.
pub proof fn lemma_no_neighbors_on_dead_board(b: Seq<Seq<Cell>>, r: int, c: int)
    requires
        all_dead(b),
    ensures
        live_neighbors(b, r, c) == 0,
{
    assert(!alive_at(b, r - 1, c - 1));
    assert(!alive_at(b, r - 1, c));
    assert(!alive_at(b, r - 1, c + 1));
    assert(!alive_at(b, r, c - 1));
    assert(!alive_at(b, r, c + 1));
    assert(!alive_at(b, r + 1, c - 1));
    assert(!alive_at(b, r + 1, c));
    assert(!alive_at(b, r + 1, c + 1));
}

/// Two steps in a row are the rule applied twice: the cell at `(r, c)` two
/// generations on is the rule applied to the cell one generation on and to
/// the neighbour count on that middle board, whose cells in turn are the
/// rule applied to the cells of the first board. No cell of a generation
/// sees a cell of the generation that is being computed.
pub proof fn lemma_two_steps(b: Seq<Seq<Cell>>, r: int, c: int)
    requires
        is_board(b),
        on_board(b, r, c),
    ensures
        is_board(step(step(b))),
        height(step(step(b))) == height(b),
        width(step(step(b))) == width(b),
        step(step(b))[r][c] == next_cell(
            next_cell(b[r][c], live_neighbors(b, r, c)),
            live_neighbors(step(b), r, c),
        ),
        forall|i: int, j: int|
            on_board(b, i, j) ==> (alive_at(step(b), i, j) <==> next_cell(
                b[i][j],
                live_neighbors(b, i, j),
            ) == Cell::Alive),
{
    lemma_step_shape(b);
    lemma_step_shape(step(b));
    assert(on_board(step(b), r, c));
}

} // verus!
