//! The plain game: one board on the whole screen, moved by single keys.

use crate::board::{board_of, height, is_board, step, width, Gen};
use crate::generation::successor;
use crate::seed::{is_seeded, random_gen, SEED_COLS, SEED_ROWS};
use crate::keys::Key;
use vstd::prelude::*;

verus! {

/// What a key asks of the game.
#[derive(Clone, Copy, Debug, PartialEq, Eq, Structural)]
pub enum LoopCommand {
    Quit,
    Reseed,
    Step,
    Animate,
    Ignore,
}

/// What the caller is to do once a key was handled.
#[derive(Clone, Copy, Debug, PartialEq, Eq, Structural)]
pub enum LoopAction {
    /// Leave the game.
    Quit,
    /// Draw the frame, then wait for a key.
    Show,
    /// Move and draw the frame again and again until a key stops it.
    Animate,
    /// Wait for a key.
    Wait,
}

/// The command that a key stands for: `q` or Escape leaves, `s` seeds a new
/// board, `n` steps, `a` animates. Every other key is ignored.
pub open spec fn loop_command_of(key: Key) -> LoopCommand {
    match key {
        Key::Char(c) => if c == 'q' {
            LoopCommand::Quit
        } else if c == 's' {
            LoopCommand::Reseed
        } else if c == 'n' {
            LoopCommand::Step
        } else if c == 'a' {
            LoopCommand::Animate
        } else {
            LoopCommand::Ignore
        },
        Key::Esc => LoopCommand::Quit,
        _ => LoopCommand::Ignore,
    }
}

/// The command that a key stands for.
pub fn loop_command(key: Key) -> (command: LoopCommand)
    ensures
        command == loop_command_of(key),
{
    match key {
        Key::Esc | Key::Char('q') => LoopCommand::Quit,
        Key::Char('s') => LoopCommand::Reseed,
        Key::Char('n') => LoopCommand::Step,
        Key::Char('a') => LoopCommand::Animate,
        _ => LoopCommand::Ignore,
    }
}

/// The board that the game starts with: a seeded board of `SEED_ROWS` rows
/// and `SEED_COLS` columns, made as `random_gen` makes it.
pub fn first_frame() -> (frame: Gen)
    ensures
        is_seeded(board_of(frame@), SEED_ROWS as int, SEED_COLS as int),
        is_board(board_of(frame@)),
        height(board_of(frame@)) == SEED_ROWS,
        width(board_of(frame@)) == SEED_COLS,
{
    let frame = random_gen(SEED_ROWS, SEED_COLS);
    assert(board_of(frame@)[0] == frame[0]@);
    frame
}

/// Replaces the frame by the generation that follows it.
pub fn tick(frame: &mut Gen)
    requires
        is_board(board_of(old(frame)@)),
    ensures
        is_board(board_of(final(frame)@)),
        board_of(final(frame)@) == step(board_of(old(frame)@)),
{
    let next = successor(frame);
    *frame = next;
}

/// Handles a key that was pressed while the game waits. Seeding replaces
/// the frame by a new seeded board, a step by the generation that follows
/// it; every other key leaves the frame as it is.
pub fn on_key(frame: &mut Gen, key: Key) -> (action: LoopAction)
    requires
        is_board(board_of(old(frame)@)),
    ensures
        is_board(board_of(final(frame)@)),
        match loop_command_of(key) {
            LoopCommand::Quit => action == LoopAction::Quit && *final(frame) == *old(frame),
            LoopCommand::Reseed => {
                &&& action == LoopAction::Show
                &&& is_seeded(board_of(final(frame)@), SEED_ROWS as int, SEED_COLS as int)
                &&& height(board_of(final(frame)@)) == SEED_ROWS
                &&& width(board_of(final(frame)@)) == SEED_COLS
            },
            LoopCommand::Step => {
                &&& action == LoopAction::Show
                &&& board_of(final(frame)@) == step(board_of(old(frame)@))
            },
            LoopCommand::Animate => action == LoopAction::Animate && *final(frame) == *old(
                frame,
            ),
            LoopCommand::Ignore => action == LoopAction::Wait && *final(frame) == *old(frame),
        },
{
    match loop_command(key) {
        LoopCommand::Quit => LoopAction::Quit,
        LoopCommand::Reseed => {
            *frame = first_frame();
            LoopAction::Show
        },
        LoopCommand::Step => {
            tick(frame);
            LoopAction::Show
        },
        LoopCommand::Animate => LoopAction::Animate,
        LoopCommand::Ignore => LoopAction::Wait,
    }
}

/// Whether what came in after a frame of an animation stops it: the key `q`
/// does, any other key and no key do not.
pub fn stops_animation(key: Option<Key>) -> (stops: bool)
    ensures
        stops == (key == Some(Key::Char('q'))),
{
    match key {
        Some(Key::Char('q')) => true,
        _ => false,
    }
}

} // verus!
