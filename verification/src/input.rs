//! What the player can ask for, and which keys ask for it.

use vstd::prelude::*;

verus! {

/// A request from the player.
#[derive(Clone, Copy, Debug, PartialEq, Eq, Structural)]
pub enum Command {
    /// Leave the game.
    Quit,
    /// Flap once.
    Flap,
}

/// A key, as far as the game tells keys apart.
#[derive(Clone, Copy, Debug, PartialEq, Eq, Structural)]
pub enum Key {
    /// A key that types a character.
    Char(char),
    /// The upward arrow.
    Up,
    /// Any other key.
    Other,
}

/// What waiting for the terminal gave.
#[derive(Clone, Copy, Debug, PartialEq, Eq, Structural)]
pub enum Polled {
    /// Nothing happened before the wait ran out.
    Idle,
    /// A key was pressed.
    Pressed(Key),
    /// Something else happened, such as a resize.
    Other,
}

/// The command that a key stands for: `q` quits; the upward arrow, `w` and
/// the space bar flap; no other key means anything.
pub open spec fn command_of(key: Key) -> Option<Command> {
    match key {
        Key::Char(c) => if c == 'q' {
            Some(Command::Quit)
        } else if c == 'w' || c == ' ' {
            Some(Command::Flap)
        } else {
            None
        },
        Key::Up => Some(Command::Flap),
        Key::Other => None,
    }
}

/// The command, if any, in what a wait for the terminal gave.
pub open spec fn polled_command(polled: Polled) -> Option<Command> {
    match polled {
        Polled::Pressed(key) => command_of(key),
        _ => None,
    }
}

/// Reads a command out of what a wait for the terminal gave. Only a
/// recognised key gives one.
pub fn keypress(polled: Polled) -> (command: Option<Command>)
    ensures
        command == polled_command(polled),
{
    match polled {
        Polled::Pressed(key) => match key {
            Key::Char(c) => {
                if c == 'q' {
                    Some(Command::Quit)
                } else if c == 'w' || c == ' ' {
                    Some(Command::Flap)
                } else {
                    None
                }
            },
            Key::Up => Some(Command::Flap),
            Key::Other => None,
        },
        _ => None,
    }
}

} // verus!
