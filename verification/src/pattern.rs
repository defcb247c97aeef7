//! Patterns as text: one line for each row, a full stop for a dead cell and
//! any other character for a live one. A text is taken only where its lines
//! form a board.

use crate::board::{board_of, is_board, Gen};
use crate::cell::Cell;
use crate::grid::{is_playable, GridError};
use vstd::prelude::*;

verus! {

/// The cell that a character of a pattern stands for.
pub open spec fn cell_of(ch: char) -> Cell {
    if ch == '.' {
        Cell::Dead
    } else {
        Cell::Alive
    }
}

/// The index of the first line feed at `from` or after it, or the length of
/// the text when none follows.
pub open spec fn line_end(text: Seq<char>, from: int) -> int
    decreases text.len() - from,
{
    if from < 0 || from >= text.len() {
        text.len() as int
    } else if text[from] == '\n' {
        from
    } else {
        line_end(text, from + 1)
    }
}

/// Where the content of the line that starts at `from` stops: at its line
/// feed, or one earlier where a carriage return stands directly before the
/// line feed. A line that the end of the text closes keeps all its
/// characters.
pub open spec fn content_end(text: Seq<char>, from: int) -> int {
    let end = line_end(text, from);
    if end < text.len() && from < end && text[end - 1] == '\r' {
        end - 1
    } else {
        end
    }
}

/// The cells for the characters of `text` from `from` up to `to`.
pub open spec fn cells_between(text: Seq<char>, from: int, to: int) -> Seq<Cell> {
    Seq::new((to - from) as nat, |k: int| cell_of(text[from + k]))
}

/// The rows for the lines of `text` that start at `from` or later.
pub open spec fn rows_from(text: Seq<char>, from: int) -> Seq<Seq<Cell>>
    decreases text.len() + 1 - from,
{
    if from < 0 || from >= text.len() {
        Seq::empty()
    } else {
        proof {
            lemma_line_end_bounds(text, from);
        }
        seq![cells_between(text, from, content_end(text, from))] + rows_from(
            text,
            line_end(text, from) + 1,
        )
    }
}

/// The rows that a pattern text stands for. Lines end at a line feed or at a
/// carriage return directly followed by one; the last line needs no line
/// ending, and a text that ends with one has no empty row after it.
pub open spec fn rows_of_text(text: Seq<char>) -> Seq<Seq<Cell>> {
    rows_from(text, 0)
}

/// The end of a line lies at its start or after it, and within the text.
pub proof fn lemma_line_end_bounds(text: Seq<char>, from: int)
    requires
        0 <= from <= text.len(),
    ensures
        from <= line_end(text, from) <= text.len(),
    decreases text.len() - from,
{
    if from < text.len() && text[from] != '\n' {
        lemma_line_end_bounds(text, from + 1);
    }
}

/// A line ends at the first position that holds a line feed or closes the
/// text.
pub proof fn lemma_line_end_is(text: Seq<char>, from: int, end: int)
    requires
        0 <= from <= end <= text.len(),
        forall|k: int| from <= k < end ==> text[k] != '\n',
        end == text.len() || text[end] == '\n',
    ensures
        line_end(text, from) == end,
    decreases end - from,
{
    if from < end {
        lemma_line_end_is(text, from + 1, end);
    }
}

/// The rows for the lines of a text, whatever they are.
fn read_rows(s: &String) -> (gen: Gen)
    ensures
        board_of(gen@) == rows_of_text(s@),
{
    let ghost text = s@;
    let mut gen: Gen = Vec::new();
    let mut row: Vec<Cell> = Vec::new();
    let mut open_line = false;
    let mut after_cr = false;
    let ghost mut start: int = 0;
    for ch in it: s.chars()
        invariant
            it.seq() == text,
            0 <= start <= it.index() <= text.len(),
            forall|k: int| start <= k < it.index() ==> text[k] != '\n',
            rows_of_text(text) == board_of(gen@) + rows_from(text, start),
            row@ == cells_between(text, start, it.index() as int),
            open_line == (start < it.index()),
            after_cr == (start < it.index() && text[it.index() - 1] == '\r'),
    {
        let ghost i = it.index() as int;
        assert(ch == text[i]);
        if ch == '\n' {
            proof {
                lemma_line_end_is(text, start, i);
            }
            if after_cr {
                row.pop();
            }
            assert(row@ =~= cells_between(text, start, content_end(text, start)));
            let ghost before = board_of(gen@);
            gen.push(row);
            assert(board_of(gen@) =~= before + seq![cells_between(
                text,
                start,
                content_end(text, start),
            )]);
            row = Vec::new();
            open_line = false;
            after_cr = false;
            proof {
                start = i + 1;
            }
            assert(row@ =~= cells_between(text, start, i + 1));
        } else {
            let cell = if ch == '.' {
                Cell::Dead
            } else {
                Cell::Alive
            };
            row.push(cell);
            assert(row@ =~= cells_between(text, start, i + 1));
            open_line = true;
            after_cr = ch == '\r';
        }
    }
    if open_line {
        proof {
            lemma_line_end_is(text, start, text.len() as int);
        }
        let ghost before = board_of(gen@);
        gen.push(row);
        assert(board_of(gen@) =~= before + seq![cells_between(
            text,
            start,
            content_end(text, start),
        )]);
        assert(rows_from(text, text.len() as int + 1) =~= Seq::<Seq<Cell>>::empty());
    }
    gen
}

/// The generation that a pattern text stands for. The text is refused with
/// `InvalidDimension` unless its lines form a board: a text without a line,
/// a text with an empty line, a text whose lines differ in length, and one
/// with more than `i32::MAX` lines or characters in a line. Nothing else is
/// refused.
pub fn gen_from_file(s: &String) -> (result: Result<Gen, GridError>)
    ensures
        is_board(rows_of_text(s@)) ==> result is Ok,
        !is_board(rows_of_text(s@)) ==> result == Err::<Gen, GridError>(
            GridError::InvalidDimension,
        ),
        result matches Ok(gen) ==> board_of(gen@) == rows_of_text(s@),
{
    let gen = read_rows(s);
    if is_playable(&gen) {
        Ok(gen)
    } else {
        Err(GridError::InvalidDimension)
    }
}

} // verus!
