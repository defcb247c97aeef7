use game_of_life::board::Gen;
use game_of_life::cell::Cell;
use game_of_life::cell::Cell::{Alive, Dead};
use game_of_life::render::{gen_to_spans, row_to_text};
use tui::style::Style;
use tui::text::Spans;

fn texts(lines: &[Spans<'static>]) -> Vec<String> {
    lines.iter().map(|line| String::from(line.clone())).collect()
}

#[test]
fn a_live_cell_is_a_white_square_and_a_dead_one_two_blanks() {
    assert_eq!(row_to_text(&vec![Alive], 1), "\u{2B1C}");
    assert_eq!(row_to_text(&vec![Dead], 1), "  ");
    assert_eq!(row_to_text(&vec![Alive, Dead, Dead, Alive], 4), "\u{2B1C}    \u{2B1C}");
}

#[test]
fn a_row_can_be_cut_short() {
    assert_eq!(row_to_text(&vec![Alive, Dead, Alive], 2), "\u{2B1C}  ");
    assert_eq!(row_to_text(&vec![Alive, Dead, Alive], 0), "");
    assert_eq!(row_to_text(&Vec::<Cell>::new(), 0), "");
}

#[test]
fn every_row_is_one_line_of_one_plain_span() {
    let g: Gen = vec![vec![Alive, Dead], vec![Dead, Alive], vec![Dead, Dead]];
    let lines = gen_to_spans(&g);
    assert_eq!(lines.len(), 3);
    for line in &lines {
        assert_eq!(line.0.len(), 1);
        assert_eq!(line.0[0].style, Style::default());
    }
    assert_eq!(lines[0].0[0].content, "\u{2B1C}  ");
    assert_eq!(lines[1].0[0].content, "  \u{2B1C}");
    assert_eq!(lines[2].0[0].content, "    ");
}

#[test]
fn no_rows_give_no_lines() {
    assert!(gen_to_spans(&Vec::new()).is_empty());
}

#[test]
fn rows_are_shown_as_far_as_the_first_row_reaches() {
    let g: Gen = vec![vec![Alive, Alive], vec![Alive, Alive, Alive, Alive], vec![Alive]];
    let lines = gen_to_spans(&g);
    assert_eq!(texts(&lines), vec!["\u{2B1C}\u{2B1C}", "\u{2B1C}\u{2B1C}", "\u{2B1C}"]);
}

#[test]
fn an_empty_first_row_empties_every_line() {
    let g: Gen = vec![vec![], vec![Alive, Dead]];
    assert_eq!(texts(&gen_to_spans(&g)), vec!["", ""]);
}
