//! Well-known patterns and what a step makes of them, on any board that has
//! room for them.

use crate::board::{alive_at, all_dead, height, is_board, live_neighbors, on_board, step, width};
use crate::cell::Cell;
use crate::laws::{lemma_same_cells, lemma_step_shape};
use vstd::prelude::*;

verus! {

/// The cell at `(r0, c0)` is alive and no other cell is.
pub open spec fn is_lone_cell(b: Seq<Seq<Cell>>, r0: int, c0: int) -> bool {
    &&& on_board(b, r0, c0)
    &&& forall|r: int, c: int| #[trigger] alive_at(b, r, c) <==> r == r0 && c == c0
}

/// The four cells of the square whose upper left corner is `(r0, c0)` are
/// alive and no other cell is.
pub open spec fn is_block(b: Seq<Seq<Cell>>, r0: int, c0: int) -> bool {
    &&& on_board(b, r0, c0)
    &&& on_board(b, r0 + 1, c0 + 1)
    &&& forall|r: int, c: int| #[trigger]
        alive_at(b, r, c) <==> r0 <= r <= r0 + 1 && c0 <= c <= c0 + 1
}

/// Three cells in row `r0`, the middle one in column `c0`, are alive and no
/// other cell is. The rows above and below are on the board.
pub open spec fn is_row_blinker(b: Seq<Seq<Cell>>, r0: int, c0: int) -> bool {
    &&& on_board(b, r0 - 1, c0 - 1)
    &&& on_board(b, r0 + 1, c0 + 1)
    &&& forall|r: int, c: int| #[trigger] alive_at(b, r, c) <==> r == r0 && c0 - 1 <= c <= c0 + 1
}

/// Three cells in column `c0`, the middle one in row `r0`, are alive and no
/// other cell is. The columns to the left and to the right are on the board.
pub open spec fn is_column_blinker(b: Seq<Seq<Cell>>, r0: int, c0: int) -> bool {
    &&& on_board(b, r0 - 1, c0 - 1)
    &&& on_board(b, r0 + 1, c0 + 1)
    &&& forall|r: int, c: int| #[trigger] alive_at(b, r, c) <==> c == c0 && r0 - 1 <= r <= r0 + 1
}

/// A live cell that stands alone dies, wherever it stands, and nothing is
/// born: the next board has no live cell. This holds of a cell in the corner
/// `(0, 0)` as of any other.
pub proof fn lemma_lone_cell_dies(b: Seq<Seq<Cell>>, r0: int, c0: int)
    requires
        is_board(b),
        is_lone_cell(b, r0, c0),
    ensures
        !alive_at(step(b), r0, c0),
        all_dead(step(b)),
{
    lemma_step_shape(b);
    assert forall|r: int, c: int| on_board(step(b), r, c) implies !alive_at(step(b), r, c) by {
        assert(on_board(b, r, c));
        assert(live_neighbors(b, r, c) <= 1);
        assert(alive_at(b, r, c) ==> live_neighbors(b, r, c) == 0);
    }
}

/// A single live cell in the corner `(0, 0)` of a board of at least two rows
/// and two columns dies in one step.
pub proof fn lemma_lone_corner_cell_dies(b: Seq<Seq<Cell>>)
    requires
        is_board(b),
        height(b) >= 2,
        width(b) >= 2,
        is_lone_cell(b, 0, 0),
    ensures
        step(b)[0][0] == Cell::Dead,
        all_dead(step(b)),
{
    lemma_lone_cell_dies(b, 0, 0);
    lemma_step_shape(b);
    assert(on_board(step(b), 0, 0));
}

/// The block is a still life: a step leaves it as it is.
pub proof fn lemma_block_is_still(b: Seq<Seq<Cell>>, r0: int, c0: int)
    requires
        is_board(b),
        is_block(b, r0, c0),
    ensures
        step(b) == b,
{
    lemma_step_shape(b);
    assert forall|r: int, c: int| on_board(step(b), r, c) implies (alive_at(step(b), r, c)
        <==> alive_at(b, r, c)) by {
        assert(on_board(b, r, c));
        if alive_at(b, r, c) {
            assert(live_neighbors(b, r, c) == 3);
        } else {
            assert(live_neighbors(b, r, c) <= 2);
        }
    }
    lemma_same_cells(step(b), b);
}

/// A step turns a blinker that lies in a row into one that stands in a
/// column, round the same middle cell.
pub proof fn lemma_row_blinker_turns(b: Seq<Seq<Cell>>, r0: int, c0: int)
    requires
        is_board(b),
        is_row_blinker(b, r0, c0),
    ensures
        is_board(step(b)),
        height(step(b)) == height(b),
        width(step(b)) == width(b),
        is_column_blinker(step(b), r0, c0),
{
    lemma_step_shape(b);
    assert forall|r: int, c: int| #[trigger]
        alive_at(step(b), r, c) <==> c == c0 && r0 - 1 <= r <= r0 + 1 by {
        if on_board(b, r, c) {
            assert(on_board(step(b), r, c));
            if c == c0 && r0 - 1 <= r <= r0 + 1 {
                if alive_at(b, r, c) {
                    assert(live_neighbors(b, r, c) == 2);
                } else {
                    assert(live_neighbors(b, r, c) == 3);
                }
            } else if alive_at(b, r, c) {
                assert(live_neighbors(b, r, c) == 1);
            } else {
                assert(live_neighbors(b, r, c) <= 2);
            }
        }
    }
}

/// A step turns a blinker that stands in a column into one that lies in a
/// row, round the same middle cell.
pub proof fn lemma_column_blinker_turns(b: Seq<Seq<Cell>>, r0: int, c0: int)
    requires
        is_board(b),
        is_column_blinker(b, r0, c0),
    ensures
        is_board(step(b)),
        height(step(b)) == height(b),
        width(step(b)) == width(b),
        is_row_blinker(step(b), r0, c0),
{
    lemma_step_shape(b);
    assert forall|r: int, c: int| #[trigger]
        alive_at(step(b), r, c) <==> r == r0 && c0 - 1 <= c <= c0 + 1 by {
        if on_board(b, r, c) {
            assert(on_board(step(b), r, c));
            if r == r0 && c0 - 1 <= c <= c0 + 1 {
                if alive_at(b, r, c) {
                    assert(live_neighbors(b, r, c) == 2);
                } else {
                    assert(live_neighbors(b, r, c) == 3);
                }
            } else if alive_at(b, r, c) {
                assert(live_neighbors(b, r, c) == 1);
            } else {
                assert(live_neighbors(b, r, c) <= 2);
            }
        }
    }
}

/// The blinker has period two: one step turns the row into a column, which
/// is another board, and a second step gives back the board that it started
/// from.
pub proof fn lemma_blinker_period_two(b: Seq<Seq<Cell>>, r0: int, c0: int)
    requires
        is_board(b),
        is_row_blinker(b, r0, c0),
    ensures
        is_column_blinker(step(b), r0, c0),
        step(b) != b,
        step(step(b)) == b,
{
    lemma_row_blinker_turns(b, r0, c0);
    lemma_column_blinker_turns(step(b), r0, c0);
    lemma_same_row_blinker(step(step(b)), b, r0, c0);
    lemma_row_is_no_column(b, step(b), r0, c0);
}

/// A board with a blinker in a row is not a board with a blinker in a
/// column.
proof fn lemma_row_is_no_column(a: Seq<Seq<Cell>>, b: Seq<Seq<Cell>>, r0: int, c0: int)
    requires
        is_row_blinker(a, r0, c0),
        is_column_blinker(b, r0, c0),
    ensures
        a != b,
{
    assert(alive_at(a, r0, c0 + 1));
    assert(!alive_at(b, r0, c0 + 1));
}

/// Two boards of one shape that hold the same blinker are equal.
proof fn lemma_same_row_blinker(a: Seq<Seq<Cell>>, b: Seq<Seq<Cell>>, r0: int, c0: int)
    requires
        is_board(a),
        is_board(b),
        height(a) == height(b),
        width(a) == width(b),
        is_row_blinker(a, r0, c0),
        is_row_blinker(b, r0, c0),
    ensures
        a == b,
{
    lemma_same_cells(a, b);
}

/// Where the cells of a glider lie in each of its phases, as steps from the
/// upper left corner of the square of four rows and four columns that it
/// moves through. Phase 0 is the glider itself; phase 4 is the glider again,
/// one row down and one column to the right.
pub open spec fn glider_phase(phase: int, dr: int, dc: int) -> bool {
    if phase == 0 {
        ||| dr == 0 && dc == 1
        ||| dr == 1 && dc == 2
        ||| dr == 2 && 0 <= dc <= 2
    } else if phase == 1 {
        ||| dr == 1 && (dc == 0 || dc == 2)
        ||| dr == 2 && (dc == 1 || dc == 2)
        ||| dr == 3 && dc == 1
    } else if phase == 2 {
        ||| dr == 1 && dc == 2
        ||| dr == 2 && (dc == 0 || dc == 2)
        ||| dr == 3 && (dc == 1 || dc == 2)
    } else if phase == 3 {
        ||| dr == 1 && dc == 1
        ||| dr == 2 && (dc == 2 || dc == 3)
        ||| dr == 3 && (dc == 1 || dc == 2)
    } else {
        ||| dr == 1 && dc == 2
        ||| dr == 2 && dc == 3
        ||| dr == 3 && 1 <= dc <= 3
    }
}

/// The board holds a glider in the given phase and no other live cell. The
/// square of four rows and four columns from `(r0, c0)` on, through which
/// the glider moves, is on the board.
pub open spec fn holds_glider(b: Seq<Seq<Cell>>, r0: int, c0: int, phase: int) -> bool {
    &&& on_board(b, r0, c0)
    &&& on_board(b, r0 + 3, c0 + 3)
    &&& forall|r: int, c: int| #[trigger] alive_at(b, r, c) <==> glider_phase(phase, r - r0, c - c0)
}

/// The five cells of a glider whose upper left corner is `(r0, c0)` are
/// alive and no other cell is.
pub open spec fn is_glider(b: Seq<Seq<Cell>>, r0: int, c0: int) -> bool {
    &&& on_board(b, r0, c0)
    &&& on_board(b, r0 + 2, c0 + 2)
    &&& forall|r: int, c: int| #[trigger] alive_at(b, r, c) <==> glider_phase(0, r - r0, c - c0)
}

/// A cell is alive after a step where it had three live neighbours, or was
/// alive and had two.
pub proof fn lemma_cell_rule(b: Seq<Seq<Cell>>, r: int, c: int)
    requires
        is_board(b),
    ensures
        alive_at(step(b), r, c) <==> on_board(b, r, c) && (live_neighbors(b, r, c) == 3 || (
        alive_at(b, r, c) && live_neighbors(b, r, c) == 2)),
{
    lemma_step_shape(b);
    if on_board(b, r, c) {
        assert(on_board(step(b), r, c));
    }
}

/// One step takes a glider from one phase to the next.
proof fn lemma_glider_phase(b: Seq<Seq<Cell>>, r0: int, c0: int, phase: int)
    requires
        is_board(b),
        0 <= phase < 4,
        holds_glider(b, r0, c0, phase),
    ensures
        is_board(step(b)),
        height(step(b)) == height(b),
        width(step(b)) == width(b),
        holds_glider(step(b), r0, c0, phase + 1),
{
    lemma_step_shape(b);
    assert forall|r: int, c: int| #[trigger]
        alive_at(step(b), r, c) <==> glider_phase(phase + 1, r - r0, c - c0) by {
        lemma_cell_rule(b, r, c);
        let here = alive_at(b, r, c);
        assert(here <==> glider_phase(phase, r - r0, c - c0));
    }
}

/// The glider travels: four steps give the same shape one row down and one
/// column to the right, on every board that holds the square of four rows
/// and four columns through which it moves.
pub proof fn lemma_glider_travels(b: Seq<Seq<Cell>>, r0: int, c0: int)
    requires
        is_board(b),
        is_glider(b, r0, c0),
        on_board(b, r0 + 3, c0 + 3),
    ensures
        is_board(step(step(step(step(b))))),
        height(step(step(step(step(b))))) == height(b),
        width(step(step(step(step(b))))) == width(b),
        is_glider(step(step(step(step(b)))), r0 + 1, c0 + 1),
{
    let b1 = step(b);
    let b2 = step(b1);
    let b3 = step(b2);
    let b4 = step(b3);
    lemma_glider_phase(b, r0, c0, 0);
    lemma_glider_phase(b1, r0, c0, 1);
    lemma_glider_phase(b2, r0, c0, 2);
    lemma_glider_phase(b3, r0, c0, 3);
    assert forall|r: int, c: int| #[trigger]
        alive_at(b4, r, c) <==> glider_phase(0, r - (r0 + 1), c - (c0 + 1)) by {
        assert(alive_at(b4, r, c) <==> glider_phase(4, r - r0, c - c0));
    }
}

} // verus!
