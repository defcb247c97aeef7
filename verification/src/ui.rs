//! The state of the pattern browser: the list of presets with its cursor, the
//! split of the screen and the generation on show.

use crate::board::{board_of, height, is_board, step, width, Gen};
use crate::generation::next_gen;
use crate::keys::Key;
use crate::pattern::{gen_from_file, rows_of_text};
use crate::presets::{holds_presets, presets_of, read_presets, PRESET_COUNT};
use crate::render::{gen_to_spans, shows};
use crate::seed::{is_seeded, new_gen, SEED_COLS, SEED_ROWS};
use include_dir::Dir;
use tui::text::Spans;
use vstd::prelude::*;

verus! {

/// Where a list stands on the screen: the index of its first visible item
/// and the item that is selected, if one is.
#[derive(Clone, Copy, Debug, PartialEq, Eq, Structural)]
pub struct ListCursor {
    pub offset: usize,
    pub selected: Option<usize>,
}

impl ListCursor {
    /// The cursor of a list that was not yet shown: nothing selected, the
    /// first item on top.
    pub fn new() -> (cursor: ListCursor)
        ensures
            cursor.offset == 0,
            cursor.selected is None,
    {
        ListCursor { offset: 0, selected: None }
    }

    /// The selected index.
    pub fn selected(&self) -> (index: Option<usize>)
        ensures
            index == self.selected,
    {
        self.selected
    }

    /// Selects `index`. Taking the selection away also scrolls the list
    /// back to its top.
    pub fn select(&mut self, index: Option<usize>)
        ensures
            final(self).selected == index,
            final(self).offset == (if index is None {
                0
            } else {
                old(self).offset
            }),
    {
        self.selected = index;
        if index.is_none() {
            self.offset = 0;
        }
    }
}

/// The index that follows `selected` in a list of `len` items: the first
/// item when nothing is selected or the selection stands on the last item
/// or beyond it.
pub open spec fn index_after(selected: Option<usize>, len: nat) -> int {
    match selected {
        Some(i) => if i + 1 >= len {
            0
        } else {
            i + 1
        },
        None => 0,
    }
}

/// The index that precedes `selected` in a list of `len` items: the last
/// item when the selection stands on the first one, the first item when
/// nothing is selected or the list is empty.
pub open spec fn index_before(selected: Option<usize>, len: nat) -> int {
    match selected {
        Some(i) => if i == 0 {
            if len == 0 {
                0
            } else {
                len - 1
            }
        } else {
            i - 1
        },
        None => 0,
    }
}

/// A list of items together with its cursor.
#[derive(Debug)]
pub struct StatefulList<T> {
    pub state: ListCursor,
    pub items: Vec<T>,
}

impl<T> StatefulList<T> {
    /// A list of the given items with nothing selected.
    pub fn with_items(items: Vec<T>) -> (list: StatefulList<T>)
        ensures
            list.items == items,
            list.state.selected is None,
            list.state.offset == 0,
    {
        StatefulList { state: ListCursor::new(), items }
    }

    /// Moves the selection one item down, from the last item round to the
    /// first. With nothing selected the first item is selected.
    pub fn next(&mut self)
        ensures
            final(self).items == old(self).items,
            final(self).state.offset == old(self).state.offset,
            final(self).state.selected == Some(
                index_after(old(self).state.selected, old(self).items@.len()) as usize,
            ),
    {
        let i = match self.state.selected() {
            Some(i) => {
                if i >= self.items.len().saturating_sub(1) {
                    0
                } else {
                    i + 1
                }
            },
            None => 0,
        };
        self.state.select(Some(i));
    }

    /// Moves the selection one item up, from the first item round to the
    /// last. With nothing selected the first item is selected.
    pub fn previous(&mut self)
        ensures
            final(self).items == old(self).items,
            final(self).state.offset == old(self).state.offset,
            final(self).state.selected == Some(
                index_before(old(self).state.selected, old(self).items@.len()) as usize,
            ),
    {
        let i = match self.state.selected() {
            Some(i) => {
                if i == 0 {
                    self.items.len().saturating_sub(1)
                } else {
                    i - 1
                }
            },
            None => 0,
        };
        self.state.select(Some(i));
    }

    /// Takes the selection away.
    pub fn unselect(&mut self)
        ensures
            final(self).items == old(self).items,
            final(self).state.selected is None,
            final(self).state.offset == 0,
    {
        self.state.select(None);
    }
}

/// How the screen is split between the list of patterns on the left and the
/// board on the right, each in percent of the width.
#[derive(Clone, Copy, Debug, PartialEq, Eq, Structural)]
pub struct PaneSplit {
    pub list_percent: u16,
    pub board_percent: u16,
}

/// The split while patterns are browsed.
pub open spec fn browsing_split() -> PaneSplit {
    PaneSplit { list_percent: 12, board_percent: 90 }
}

/// The split while the board is animated: the board has the whole screen.
pub open spec fn animation_split() -> PaneSplit {
    PaneSplit { list_percent: 0, board_percent: 100 }
}

/// The state of the application.
#[derive(Debug)]
pub struct App {
    /// The presets, each with its name and its text.
    pub items: StatefulList<(String, String)>,
    /// Whether `cur_gen` holds a generation to show.
    pub flag_cur: bool,
    pub layout: PaneSplit,
    /// The generation on show.
    pub cur_gen: Gen,
}

impl App {
    /// Whether the generation on show is a board wherever the application
    /// is marked as having one. The application starts like this, and the
    /// functions of this module keep it so.
    pub open spec fn well_formed(&self) -> bool {
        self.flag_cur ==> is_board(board_of(self.cur_gen@))
    }

    /// The application before anything was shown: the presets listed with
    /// none selected, the browsing split, and no generation yet.
    pub fn with_presets(presets: Vec<(String, String)>) -> (app: App)
        ensures
            app.well_formed(),
            app.items.items == presets,
            app.items.state.selected is None,
            app.items.state.offset == 0,
            !app.flag_cur,
            app.layout == browsing_split(),
            app.cur_gen@.len() == 0,
    {
        App {
            items: StatefulList::with_items(presets),
            flag_cur: false,
            layout: PaneSplit { list_percent: 12, board_percent: 90 },
            cur_gen: Vec::new(),
        }
    }

    /// The application with the presets of a packed directory, numbers 1 to
    /// `PRESET_COUNT` in this order, each with its name and its text. There
    /// is no application unless the directory holds a text for every one of
    /// them.
    pub fn new(presets: &Dir<'static>) -> (made: Option<App>)
        ensures
            made is Some <==> holds_presets(*presets, PRESET_COUNT as int),
            made matches Some(app) ==> {
                &&& app.well_formed()
                &&& app.items.items@.len() == PRESET_COUNT
                &&& presets_of(app.items.items@, *presets)
                &&& app.items.state.selected is None
                &&& app.items.state.offset == 0
                &&& !app.flag_cur
                &&& app.layout == browsing_split()
                &&& app.cur_gen@.len() == 0
            },
    {
        match read_presets(presets) {
            Some(listed) => Some(App::with_presets(listed)),
            None => None,
        }
    }
}

/// The number of the pattern that counts as being on show when the
/// application starts.
pub const FIRST_ITEM_COUNT: usize = 1;

/// What a key asks for while patterns are browsed.
#[derive(Clone, Copy, Debug, PartialEq, Eq, Structural)]
pub enum Command {
    Quit,
    Unselect,
    NextPattern,
    PreviousPattern,
    Step,
    Animate,
    Ignore,
}

/// What the caller is to do once a key was handled.
#[derive(Clone, Copy, Debug, PartialEq, Eq, Structural)]
pub enum Outcome {
    /// Leave the application.
    Quit,
    /// Show the list and the generation on show, then wait for a key.
    Browse,
    /// Say that the pattern that was moved to is no board and cannot be
    /// shown, then go on browsing with the generation that was on show.
    PatternRefused,
    /// Show the next generation once, then go on browsing.
    Step,
    /// Show generation after generation until a key stops it.
    Animate,
}

/// The command that a key stands for: `q` or Escape leaves, `h` or the left
/// arrow takes the selection away, `j` or the down arrow and `k` or the up
/// arrow move through the patterns, `n` steps, `a` animates. Every other key
/// is ignored.
pub open spec fn command_of(key: Key) -> Command {
    match key {
        Key::Char(c) => if c == 'q' {
            Command::Quit
        } else if c == 'h' {
            Command::Unselect
        } else if c == 'j' {
            Command::NextPattern
        } else if c == 'k' {
            Command::PreviousPattern
        } else if c == 'n' {
            Command::Step
        } else if c == 'a' {
            Command::Animate
        } else {
            Command::Ignore
        },
        Key::Esc => Command::Quit,
        Key::Left => Command::Unselect,
        Key::Down => Command::NextPattern,
        Key::Up => Command::PreviousPattern,
        Key::Other => Command::Ignore,
    }
}

/// The command that a key stands for.
pub fn command_for(key: Key) -> (command: Command)
    ensures
        command == command_of(key),
{
    match key {
        Key::Char('q') | Key::Esc => Command::Quit,
        Key::Char('h') | Key::Left => Command::Unselect,
        Key::Char('j') | Key::Down => Command::NextPattern,
        Key::Char('k') | Key::Up => Command::PreviousPattern,
        Key::Char('n') => Command::Step,
        Key::Char('a') => Command::Animate,
        _ => Command::Ignore,
    }
}

/// Whether the application is as it was but for the generation on show and
/// the selection in the list.
pub open spec fn same_but_pattern(before: App, after: App) -> bool {
    &&& after.items.items == before.items.items
    &&& after.items.state.offset == before.items.state.offset
    &&& after.flag_cur == before.flag_cur
    &&& after.layout == before.layout
}

/// Whether there is a preset of number `count` whose text forms no board.
pub open spec fn is_refused(app: App, count: int) -> bool {
    0 <= count < app.items.items@.len() && !is_board(rows_of_text(app.items.items@[count].1@))
}

/// Whether the pattern that is counted as number `count` is on show where
/// it can be: the rows are those of the text of that preset. Where the text
/// forms no board, and where there is no preset of that number, the
/// generation on show is the one that was there before.
pub open spec fn pattern_on_show(before: App, after: App, count: int) -> bool {
    if 0 <= count < before.items.items@.len() && !is_refused(before, count) {
        board_of(after.cur_gen@) == rows_of_text(before.items.items@[count].1@)
    } else {
        after.cur_gen == before.cur_gen
    }
}

/// What follows a move to the pattern of number `count`.
pub open spec fn outcome_of_move(before: App, count: int) -> Outcome {
    if is_refused(before, count) {
        Outcome::PatternRefused
    } else {
        Outcome::Browse
    }
}

/// Puts the pattern of number `count` on show where there is one and its
/// text forms a board, and says what follows.
fn show_pattern(app: &mut App, count: usize) -> (outcome: Outcome)
    ensures
        outcome == outcome_of_move(*old(app), count as int),
        pattern_on_show(*old(app), *final(app), count as int),
        final(app).items == old(app).items,
        final(app).flag_cur == old(app).flag_cur,
        final(app).layout == old(app).layout,
{
    if count < app.items.items.len() {
        match gen_from_file(&app.items.items[count].1) {
            Ok(gen) => {
                app.cur_gen = gen;
                Outcome::Browse
            },
            Err(_) => Outcome::PatternRefused,
        }
    } else {
        Outcome::Browse
    }
}

/// Handles a key that was pressed while patterns are browsed. `item_cnt` is
/// the number of the pattern on show, which is counted apart from the
/// selection in the list; the new number is handed back together with what
/// the caller is to do next.
///
/// Moving down or up moves both the count and the selection by one, each
/// round the ends of the list, and puts the pattern of the new count on
/// show. A pattern whose text forms no board is not put on show: the
/// generation stays as it was and the outcome says that the pattern was
/// refused. Every other key leaves the count and the generation as they
/// are. A board on show is followed by a board on show, whatever the key.
pub fn handle_key(app: &mut App, item_cnt: usize, key: Key) -> (result: (usize, Outcome))
    ensures
        is_board(board_of(old(app).cur_gen@)) ==> is_board(board_of(final(app).cur_gen@)),
        old(app).well_formed() ==> final(app).well_formed(),
        match command_of(key) {
            Command::Quit => {
                &&& result == (item_cnt, Outcome::Quit)
                &&& *final(app) == *old(app)
            },
            Command::Unselect => {
                &&& result == (item_cnt, Outcome::Browse)
                &&& final(app).items.items == old(app).items.items
                &&& final(app).items.state.selected is None
                &&& final(app).items.state.offset == 0
                &&& final(app).flag_cur == old(app).flag_cur
                &&& final(app).layout == old(app).layout
                &&& final(app).cur_gen == old(app).cur_gen
            },
            Command::NextPattern => {
                &&& result.0 == index_after(Some(item_cnt), old(app).items.items@.len())
                &&& result.1 == outcome_of_move(*old(app), result.0 as int)
                &&& same_but_pattern(*old(app), *final(app))
                &&& final(app).items.state.selected == Some(
                    index_after(old(app).items.state.selected, old(app).items.items@.len())
                        as usize,
                )
                &&& pattern_on_show(*old(app), *final(app), result.0 as int)
            },
            Command::PreviousPattern => {
                &&& result.0 == index_before(Some(item_cnt), old(app).items.items@.len())
                &&& result.1 == outcome_of_move(*old(app), result.0 as int)
                &&& same_but_pattern(*old(app), *final(app))
                &&& final(app).items.state.selected == Some(
                    index_before(old(app).items.state.selected, old(app).items.items@.len())
                        as usize,
                )
                &&& pattern_on_show(*old(app), *final(app), result.0 as int)
            },
            Command::Step => {
                &&& result == (item_cnt, Outcome::Step)
                &&& *final(app) == *old(app)
            },
            Command::Animate => {
                &&& result == (item_cnt, Outcome::Animate)
                &&& *final(app) == *old(app)
            },
            Command::Ignore => {
                &&& result == (item_cnt, Outcome::Browse)
                &&& *final(app) == *old(app)
            },
        },
{
    match command_for(key) {
        Command::Quit => (item_cnt, Outcome::Quit),
        Command::Unselect => {
            app.items.unselect();
            (item_cnt, Outcome::Browse)
        },
        Command::NextPattern => {
            let len = app.items.items.len();
            let count = if item_cnt >= len.saturating_sub(1) {
                0
            } else {
                item_cnt + 1
            };
            app.items.next();
            (count, show_pattern(app, count))
        },
        Command::PreviousPattern => {
            let len = app.items.items.len();
            let count = if item_cnt == 0 {
                len.saturating_sub(1)
            } else {
                item_cnt - 1
            };
            app.items.previous();
            (count, show_pattern(app, count))
        },
        Command::Step => (item_cnt, Outcome::Step),
        Command::Animate => (item_cnt, Outcome::Animate),
        Command::Ignore => (item_cnt, Outcome::Browse),
    }
}

/// Gives the board the whole screen, as every frame of an animation does
/// before it is drawn.
pub fn enter_animation(app: &mut App)
    ensures
        old(app).well_formed() ==> final(app).well_formed(),
        final(app).layout == animation_split(),
        final(app).items == old(app).items,
        final(app).flag_cur == old(app).flag_cur,
        final(app).cur_gen == old(app).cur_gen,
{
    app.layout = PaneSplit { list_percent: 0, board_percent: 100 };
}

/// Handles what came in after a frame of an animation: the key `s` stops
/// the animation and gives the list its part of the screen back; any other
/// key, and no key, lets the animation go on. Hands back whether it goes on.
pub fn continue_animation(app: &mut App, key: Option<Key>) -> (goes_on: bool)
    ensures
        old(app).well_formed() ==> final(app).well_formed(),
        goes_on == (key != Some(Key::Char('s'))),
        goes_on ==> *final(app) == *old(app),
        !goes_on ==> {
            &&& final(app).layout == browsing_split()
            &&& final(app).items == old(app).items
            &&& final(app).flag_cur == old(app).flag_cur
            &&& final(app).cur_gen == old(app).cur_gen
        },
{
    match key {
        Some(Key::Char('s')) => {
            app.layout = PaneSplit { list_percent: 12, board_percent: 90 };
            false
        },
        _ => true,
    }
}

/// The lines of the board for the browsing screen. An application that has
/// no generation yet is seeded first; the lines are those of the generation
/// that is then on show.
pub fn list_view(app: &mut App) -> (spans: Vec<Spans<'static>>)
    ensures
        final(app).flag_cur,
        final(app).items == old(app).items,
        final(app).layout == old(app).layout,
        old(app).flag_cur ==> final(app).cur_gen == old(app).cur_gen,
        !old(app).flag_cur ==> {
            &&& is_seeded(board_of(final(app).cur_gen@), SEED_ROWS as int, SEED_COLS as int)
            &&& is_board(board_of(final(app).cur_gen@))
            &&& height(board_of(final(app).cur_gen@)) == SEED_ROWS
            &&& width(board_of(final(app).cur_gen@)) == SEED_COLS
        },
        old(app).well_formed() ==> is_board(board_of(final(app).cur_gen@)),
        shows(spans@, final(app).cur_gen@),
{
    if !app.flag_cur {
        let seeded = new_gen(app);
        app.cur_gen = seeded;
    }
    gen_to_spans(&app.cur_gen)
}

/// The lines of the board for one frame of the game: the application moves
/// on by one generation, and the lines are those of the new generation.
pub fn game_view(app: &mut App) -> (spans: Vec<Spans<'static>>)
    requires
        is_board(board_of(old(app).cur_gen@)),
    ensures
        board_of(final(app).cur_gen@) == step(board_of(old(app).cur_gen@)),
        is_board(board_of(final(app).cur_gen@)),
        final(app).well_formed(),
        final(app).items == old(app).items,
        final(app).flag_cur == old(app).flag_cur,
        final(app).layout == old(app).layout,
        shows(spans@, final(app).cur_gen@),
{
    let nxt = next_gen(app);
    let spans = gen_to_spans(&nxt);
    proof {
        let shown = board_of(nxt@);
        let kept = board_of(app.cur_gen@);
        assert(shown.len() == kept.len());
        assert forall|r: int| 0 <= r < nxt.len() implies (#[trigger] nxt[r])@ == app.cur_gen[r]@ by {
            assert(shown[r] == kept[r]);
        }
    }
    spans
}

} // verus!
