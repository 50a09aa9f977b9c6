//! What the keyboard does to a running game.

use crate::cell::Cell;
use crate::game::Game;
use crate::rules::next_generation;
use vstd::prelude::*;

verus! {

/// What comes from the keyboard, as far as the game tells it apart.
#[derive(Debug, Clone, Copy, PartialEq, Eq, Structural)]
pub enum Key {
    /// A character key.
    Char(char),
    /// A character key pressed together with the control key.
    Ctrl(char),
    /// The escape key.
    Esc,
    /// Any other key.
    Other,
    /// No key: the input has ended.
    Closed,
}

/// What a key asks for.
#[derive(Debug, Clone, Copy, PartialEq, Eq, Structural)]
pub enum Command {
    /// Leave the game.
    Quit,
    /// Go on to the next generation.
    Next,
    /// Nothing.
    Nothing,
}

/// What is to be done after a key.
#[derive(Debug, Clone, Copy, PartialEq, Eq, Structural)]
pub enum Action {
    /// Stop: a key asked for it, or the game is over.
    Quit,
    /// Draw the game, which has advanced, and wait for a key.
    Redraw,
    /// Wait for another key.
    Wait,
}

/// What `key` asks for: `q`, escape and control-c leave the game, the space
/// bar and the end of the input go on to the next generation, and no other
/// key does anything.
pub open spec fn command_of(key: Key) -> Command {
    match key {
        Key::Char('q') | Key::Esc | Key::Ctrl('c') => Command::Quit,
        Key::Char(' ') | Key::Closed => Command::Next,
        _ => Command::Nothing,
    }
}

/// What `key` asks for.
pub fn command(key: Key) -> (out: Command)
    ensures
        out == command_of(key),
{
    match key {
        Key::Char(c) => if c == 'q' {
            Command::Quit
        } else if c == ' ' {
            Command::Next
        } else {
            Command::Nothing
        },
        Key::Ctrl(c) => if c == 'c' {
            Command::Quit
        } else {
            Command::Nothing
        },
        Key::Esc => Command::Quit,
        Key::Closed => Command::Next,
        Key::Other => Command::Nothing,
    }
}

/// Let a key act on a game. A key that asks for the next
/// generation advances the game by one tick, after which the game is to be
/// drawn again, or to be left if that tick ended it. No other key changes
/// the game.
pub fn press(game: &mut Game, key: Key) -> (out: Action)
    requires
        old(game).wf(),
    ensures
        final(game).wf(),
        final(game).spec_opts() == old(game).spec_opts(),
        final(game).spec_window() == old(game).spec_window(),
        final(game)@ == if command_of(key) == Command::Next {
            next_generation(old(game)@)
        } else {
            old(game)@
        },
        out == match command_of(key) {
            Command::Quit => Action::Quit,
            Command::Next => if final(game)@ == Set::<Cell>::empty() {
                Action::Quit
            } else {
                Action::Redraw
            },
            Command::Nothing => Action::Wait,
        },
{
    match command(key) {
        Command::Quit => Action::Quit,
        Command::Nothing => Action::Wait,
        Command::Next => {
            game.tick();
            if game.is_over() {
                Action::Quit
            } else {
                Action::Redraw
            }
        },
    }
}

} // verus!
