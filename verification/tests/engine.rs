use game_of_life::board::Gen;
use game_of_life::cell::Cell;
use game_of_life::generation::{advance, get_alive, is_valid_idx, next_gen, next_state, successor};
use game_of_life::grid::Grid;
use game_of_life::ui::App;

fn rows(text: &[&str]) -> Gen {
    text.iter()
        .map(|line| line.chars().map(|ch| if ch == '.' { Cell::Dead } else { Cell::Alive }).collect())
        .collect()
}

fn grid(text: &[&str]) -> Grid {
    Grid::from_rows(rows(text)).unwrap()
}

/// The rule applied by hand to every cell of `cur`, with the neighbours
/// counted straight from `cur`.
fn by_hand(cur: &Gen) -> Gen {
    let h = cur.len() as i64;
    let w = cur[0].len() as i64;
    let mut next = Vec::new();
    for r in 0..h {
        let mut row = Vec::new();
        for c in 0..w {
            let mut n = 0;
            for dr in -1..=1i64 {
                for dc in -1..=1i64 {
                    let (nr, nc) = (r + dr, c + dc);
                    if (dr != 0 || dc != 0) && nr >= 0 && nr < h && nc >= 0 && nc < w {
                        if cur[nr as usize][nc as usize] == Cell::Alive {
                            n += 1;
                        }
                    }
                }
            }
            let alive = cur[r as usize][c as usize] == Cell::Alive;
            row.push(if n == 3 || (alive && n == 2) { Cell::Alive } else { Cell::Dead });
        }
        next.push(row);
    }
    next
}

#[test]
fn valid_index_is_inside_both_ranges() {
    assert!(is_valid_idx(0, 0, 1, 1));
    assert!(is_valid_idx(2, 2, 3, 3));
    assert!(is_valid_idx(0, 4, 1, 5));
    assert!(!is_valid_idx(-1, 0, 3, 3));
    assert!(!is_valid_idx(0, -1, 3, 3));
    assert!(!is_valid_idx(3, 0, 3, 3));
    assert!(!is_valid_idx(0, 3, 3, 3));
    assert!(!is_valid_idx(0, 0, 0, 0));
}

#[test]
fn neighbours_of_the_centre_are_counted() {
    let g = rows(&["OOO", "O.O", "OOO"]);
    assert_eq!(get_alive(1, 1, &g), 8);
}

#[test]
fn the_centre_itself_is_not_counted() {
    let g = rows(&["...", ".O.", "..."]);
    assert_eq!(get_alive(1, 1, &g), 0);
    assert_eq!(get_alive(0, 0, &g), 1);
    assert_eq!(get_alive(2, 1, &g), 1);
}

#[test]
fn squares_off_the_board_count_as_dead() {
    let g = rows(&["OOO", "OOO", "OOO"]);
    assert_eq!(get_alive(0, 0, &g), 3);
    assert_eq!(get_alive(0, 1, &g), 5);
    assert_eq!(get_alive(2, 2, &g), 3);
    assert_eq!(get_alive(1, 0, &g), 5);
}

#[test]
fn a_centre_off_the_board_sees_the_cells_beside_it() {
    let g = rows(&["OOO", "OOO", "OOO"]);
    assert_eq!(get_alive(-1, -1, &g), 1);
    assert_eq!(get_alive(-1, 1, &g), 3);
    assert_eq!(get_alive(3, 3, &g), 1);
    assert_eq!(get_alive(1, 3, &g), 3);
    assert_eq!(get_alive(-2, 0, &g), 0);
    assert_eq!(get_alive(5, 5, &g), 0);
}

#[test]
fn the_far_ends_of_the_coordinates_have_no_neighbours() {
    let g = rows(&["OO", "OO"]);
    assert_eq!(get_alive(i32::MAX, i32::MAX, &g), 0);
    assert_eq!(get_alive(i32::MIN, i32::MIN, &g), 0);
    assert_eq!(get_alive(i32::MAX, 0, &g), 0);
    assert_eq!(get_alive(0, i32::MIN, &g), 0);
}

#[test]
fn the_board_does_not_wrap_round() {
    let g = rows(&["O..O", "....", "....", "O..O"]);
    assert_eq!(get_alive(0, 0, &g), 0);
    assert_eq!(get_alive(3, 3, &g), 0);
    assert_eq!(get_alive(0, 3, &g), 0);
}

#[test]
fn a_live_cell_survives_with_two_or_three_neighbours() {
    assert_eq!(next_state(Cell::Alive, 2), Cell::Alive);
    assert_eq!(next_state(Cell::Alive, 3), Cell::Alive);
}

#[test]
fn a_live_cell_dies_otherwise() {
    for n in [0, 1, 4, 5, 6, 7, 8] {
        assert_eq!(next_state(Cell::Alive, n), Cell::Dead);
    }
}

#[test]
fn a_dead_cell_is_born_with_exactly_three_neighbours() {
    assert_eq!(next_state(Cell::Dead, 3), Cell::Alive);
    for n in [0, 1, 2, 4, 5, 6, 7, 8] {
        assert_eq!(next_state(Cell::Dead, n), Cell::Dead);
    }
}

#[test]
fn a_dead_board_stays_dead() {
    for (h, w) in [(1usize, 1usize), (1, 7), (5, 1), (4, 6)] {
        let dead: Gen = vec![vec![Cell::Dead; w]; h];
        assert_eq!(successor(&dead), dead);
        let g = Grid::from_rows(dead.clone()).unwrap();
        assert_eq!(advance(&g).rows(), &dead);
    }
}

#[test]
fn two_steps_are_the_rule_applied_twice() {
    let start = rows(&[".O...O", "..OO..", "OO..O.", "...O.O", "O.O...", ".OO.OO"]);
    let once = successor(&start);
    assert_eq!(once, by_hand(&start));
    let twice = successor(&once);
    assert_eq!(twice, by_hand(&by_hand(&start)));
    let g = Grid::from_rows(start.clone()).unwrap();
    assert_eq!(advance(&advance(&g)).rows(), &by_hand(&by_hand(&start)));
}

#[test]
fn every_cell_sees_the_old_generation_only() {
    // Were the first row updated before the second was computed, the
    // middle cell of the second row would see one neighbour less.
    let start = rows(&["OOO", "...", "..."]);
    assert_eq!(successor(&start), rows(&[".O.", ".O.", "..."]));
}

#[test]
fn the_input_is_left_as_it_was() {
    let start = rows(&["OOO", "...", "..."]);
    let copy = start.clone();
    let _ = successor(&start);
    assert_eq!(start, copy);
    let g = Grid::from_rows(copy.clone()).unwrap();
    let _ = advance(&g);
    assert_eq!(g.rows(), &copy);
}

#[test]
fn a_lone_cell_in_the_corner_dies() {
    for (h, w) in [(2usize, 2usize), (2, 5), (3, 3), (6, 4)] {
        let mut start: Gen = vec![vec![Cell::Dead; w]; h];
        start[0][0] = Cell::Alive;
        let next = successor(&start);
        assert_eq!(next[0][0], Cell::Dead);
        assert_eq!(next, vec![vec![Cell::Dead; w]; h]);
    }
}

#[test]
fn a_lone_cell_on_a_board_of_one_square_dies() {
    assert_eq!(successor(&rows(&["O"])), rows(&["."]));
}

#[test]
fn the_block_is_a_still_life() {
    let block = rows(&["....", ".OO.", ".OO.", "...."]);
    assert_eq!(successor(&block), block);
    let wide = rows(&["......", "......", "...OO.", "...OO.", "......"]);
    assert_eq!(successor(&wide), wide);
    assert_eq!(advance(&grid(&["....", ".OO.", ".OO.", "...."])).rows(), &block);
}

#[test]
fn the_block_is_still_in_a_corner_too() {
    let block = rows(&["OO..", "OO..", "....", "...."]);
    assert_eq!(successor(&block), block);
}

#[test]
fn the_blinker_has_period_two() {
    let lying = rows(&[".....", ".....", ".OOO.", ".....", "....."]);
    let standing = rows(&[".....", "..O..", "..O..", "..O..", "....."]);
    assert_eq!(successor(&lying), standing);
    assert_eq!(successor(&standing), lying);
    assert_eq!(successor(&successor(&lying)), lying);
}

#[test]
fn the_blinker_turns_on_the_smallest_board_that_holds_it() {
    let lying = rows(&["...", "OOO", "..."]);
    let standing = rows(&[".O.", ".O.", ".O."]);
    assert_eq!(successor(&lying), standing);
    assert_eq!(successor(&standing), lying);
}

#[test]
fn the_glider_moves_one_square_down_and_right_in_four_steps() {
    let start = rows(&[
        "........", "..O.....", "...O....", ".OOO....", "........", "........", "........",
        "........",
    ]);
    let moved = rows(&[
        "........", "........", "...O....", "....O...", "..OOO...", "........", "........",
        "........",
    ]);
    let mut g = start.clone();
    for _ in 0..4 {
        g = successor(&g);
    }
    assert_eq!(g, moved);
}

#[test]
fn the_glider_passes_through_its_phases() {
    let phase0 = rows(&[".O..", "..O.", "OOO.", "...."]);
    let phase1 = rows(&["....", "O.O.", ".OO.", ".O.."]);
    let phase2 = rows(&["....", "..O.", "O.O.", ".OO."]);
    let phase3 = rows(&["....", ".O..", "..OO", ".OO."]);
    let phase4 = rows(&["....", "..O.", "...O", ".OOO"]);
    assert_eq!(successor(&phase0), phase1);
    assert_eq!(successor(&phase1), phase2);
    assert_eq!(successor(&phase2), phase3);
    assert_eq!(successor(&phase3), phase4);
}

#[test]
fn advance_keeps_the_dimensions() {
    let g = grid(&["O.O.O", ".O.O.", "O.O.O"]);
    let next = advance(&g);
    assert_eq!(next.dimensions(), (3, 5));
    assert_eq!(g.dimensions(), (3, 5));
}

#[test]
fn advance_can_be_repeated() {
    let mut g = grid(&["...", "OOO", "..."]);
    for _ in 0..101 {
        g = advance(&g);
    }
    assert_eq!(g.rows(), &rows(&[".O.", ".O.", ".O."]));
}

#[test]
fn next_gen_moves_the_application_on_and_hands_back_a_copy() {
    let mut app = App::with_presets(vec![("a".to_string(), "b".to_string())]);
    app.cur_gen = rows(&["...", "OOO", "..."]);
    app.flag_cur = true;
    let nxt = next_gen(&mut app);
    let standing = rows(&[".O.", ".O.", ".O."]);
    assert_eq!(nxt, standing);
    assert_eq!(app.cur_gen, standing);
    assert!(app.flag_cur);
    assert_eq!(app.items.items, vec![("a".to_string(), "b".to_string())]);
    let again = next_gen(&mut app);
    assert_eq!(again, rows(&["...", "OOO", "..."]));
    assert_eq!(app.cur_gen, again);
}
