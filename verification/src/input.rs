//! From keys to commands.

use crate::gamestate::{GameState, State};
use crate::vec2::Vec2;
use vstd::prelude::*;

verus! {

/// A key of the keyboard, as far as the game tells keys apart.
#[derive(Clone, Copy, Debug, PartialEq, Eq, Structural)]
pub enum Key {
    Esc,
    Char(char),
    Other,
}

/// What a player can ask of the game.
#[derive(Clone, Copy, Debug, PartialEq, Eq, Structural)]
pub enum Command {
    /// Leave the game.
    Quit,
    /// Shift the cursor by the given step.
    MoveCursor(Vec2),
    /// Pick up the piece under the cursor, or send the held piece there.
    Action,
}

/// The command bound to a key: escape leaves, `h`, `j`, `k` and `l` push the
/// cursor left, down, up and right, and the space bar acts. Only a key going
/// down counts; no other key is bound.
#[verifier::allow_in_spec]
pub fn command_for(key: Key, pressed: bool) -> Option<Command>
    returns
        (if !pressed {
            None
        } else {
            match key {
                Key::Esc => Some(Command::Quit),
                Key::Char(c) => if c == 'h' {
                    Some(Command::MoveCursor(Vec2::left()))
                } else if c == 'j' {
                    Some(Command::MoveCursor(Vec2::down()))
                } else if c == 'k' {
                    Some(Command::MoveCursor(Vec2::up()))
                } else if c == 'l' {
                    Some(Command::MoveCursor(Vec2::right()))
                } else if c == ' ' {
                    Some(Command::Action)
                } else {
                    None
                },
                Key::Other => None,
            }
        }),
{
    if !pressed {
        return None;
    }
    match key {
        Key::Esc => Some(Command::Quit),
        Key::Char(c) => if c == 'h' {
            Some(Command::MoveCursor(Vec2::left()))
        } else if c == 'j' {
            Some(Command::MoveCursor(Vec2::down()))
        } else if c == 'k' {
            Some(Command::MoveCursor(Vec2::up()))
        } else if c == 'l' {
            Some(Command::MoveCursor(Vec2::right()))
        } else if c == ' ' {
            Some(Command::Action)
        } else {
            None
        },
        Key::Other => None,
    }
}

impl GameState {
    /// How the game `after` carrying out `command` relates to `self`, the
    /// game before it.
    pub open spec fn obeyed(&self, command: Command, after: GameState) -> bool {
        match command {
            Command::Quit => after == (GameState { state: State::Exit, ..*self }),
            Command::MoveCursor(dir) => after == (GameState {
                cursor: if 0 <= self.cursor.x + dir.x <= 7 && 0 <= self.cursor.y + dir.y <= 7 {
                    self.cursor.plus(dir)
                } else {
                    self.cursor
                },
                ..*self
            }),
            Command::Action => self.acted(after),
        }
    }

    /// Carries out `command`.
    pub fn execute(&mut self, command: Command)
        requires
            command is Action ==> old(self).can_act(),
        ensures
            old(self).obeyed(command, *final(self)),
    {
        match command {
            Command::Quit => self.quit(),
            Command::MoveCursor(dir) => self.move_cursor(dir),
            Command::Action => self.action(),
        }
    }
}

} // verus!
