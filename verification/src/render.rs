//! A board as text: one line for each row, a white square for a live cell
//! and two blanks for a dead one.

use crate::board::Gen;
use crate::cell::Cell;
use tui::text::Spans;
use vstd::prelude::*;
use vstd::string::StringExecFns;

verus! {

/// A line of styled text, as tui draws it.
#[verifier::external_type_specification]
#[verifier::external_body]
pub struct ExSpans<'a>(Spans<'a>);

/// The texts of the spans that a line is made of, in their order.
pub uninterp spec fn span_texts(line: Spans<'static>) -> Seq<Seq<char>>;

/// The line that tui makes of a text by `Spans::from`: a single span that
/// holds the text. The span has tui's default style, of which the contract
/// says nothing.
#[verifier::external_body]
fn line_of(txt: String) -> (line: Spans<'static>)
    ensures
        span_texts(line) == seq![txt@],
{
    Spans::from(txt)
}

/// The characters that show a cell.
pub open spec fn glyph(cell: Cell) -> Seq<char> {
    match cell {
        Cell::Alive => seq!['\u{2B1C}'],
        Cell::Dead => seq![' ', ' '],
    }
}

/// The text of a row: the glyphs of its cells, one after the other.
pub open spec fn row_text(row: Seq<Cell>) -> Seq<char>
    decreases row.len(),
{
    if row.len() == 0 {
        Seq::empty()
    } else {
        row_text(row.drop_last()) + glyph(row.last())
    }
}

/// How many cells of row `r` are shown: as many as the first row has, or
/// all of a shorter row.
pub open spec fn shown_len(rows: Seq<Vec<Cell>>, r: int) -> int {
    if rows[r].len() < rows[0].len() {
        rows[r].len() as int
    } else {
        rows[0].len() as int
    }
}

/// The text of one row, cut to `len` cells.
pub fn row_to_text(row: &Vec<Cell>, len: usize) -> (txt: String)
    requires
        len <= row.len(),
    ensures
        txt@ == row_text(row@.take(len as int)),
{
    let mut txt = String::new();
    assert(row@.take(0) =~= Seq::<Cell>::empty());
    for j in 0..len
        invariant
            len <= row.len(),
            txt@ == row_text(row@.take(j as int)),
    {
        proof {
            reveal_strlit("\u{2B1C}");
            reveal_strlit("  ");
            assert(row@.take(j + 1).drop_last() =~= row@.take(j as int));
            assert(row@.take(j + 1).last() == row[j as int]);
        }
        match row[j] {
            Cell::Alive => {
                assert("\u{2B1C}"@ =~= glyph(Cell::Alive));
                txt.append("\u{2B1C}");
            },
            Cell::Dead => {
                assert("  "@ =~= glyph(Cell::Dead));
                txt.append("  ");
            },
        }
    }
    txt
}

/// Whether `spans` are the lines that show the rows `gen`: one line for each
/// row from the top, each a single span with the text of the row. A row is
/// shown as far as the first row reaches; on a board that is all of it.
pub open spec fn shows(spans: Seq<Spans<'static>>, gen: Seq<Vec<Cell>>) -> bool {
    &&& spans.len() == gen.len()
    &&& forall|r: int|
        0 <= r < gen.len() ==> span_texts(#[trigger] spans[r]) == seq![
            row_text(gen[r]@.take(shown_len(gen, r))),
        ]
}

/// The lines that show a generation.
pub fn gen_to_spans(gen: &Gen) -> (spans: Vec<Spans<'static>>)
    ensures
        shows(spans@, gen@),
{
    let mut spans: Vec<Spans<'static>> = Vec::new();
    for i in 0..gen.len()
        invariant
            spans.len() == i,
            forall|r: int|
                0 <= r < i ==> span_texts(#[trigger] spans[r]) == seq![
                    row_text(gen[r]@.take(shown_len(gen@, r))),
                ],
    {
        let first = gen[0].len();
        let len = if gen[i].len() < first {
            gen[i].len()
        } else {
            first
        };
        let txt = row_to_text(&gen[i], len);
        spans.push(line_of(txt));
    }
    spans
}

} // verus!
