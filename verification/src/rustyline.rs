//! What the line editor asks of the shell.

use crate::commands::Api;
use vstd::prelude::*;

verus! {

/// The shell's side of the line editor.
#[derive(Debug, Default)]
pub struct Rustyline;

/// A key, as far as the shell tells keys apart.
#[derive(Clone, Copy, Debug, PartialEq, Eq, Structural)]
pub enum Key {
    Up,
    Down,
    Other,
}

/// A single arrow key walks the history; anything else is the editor's.
pub open spec fn handle_spec(keys: Seq<Key>) -> Option<Key> {
    if keys.len() == 1 && keys[0] != Key::Other {
        Some(keys[0])
    } else {
        None
    }
}

impl Rustyline {
    /// The shell's side of the editor; it holds no state of its own.
    pub fn new() -> Self {
        Rustyline
    }

    /// The request that a key sequence makes of the history: a step back
    /// for the up arrow alone, a step forward for the down arrow alone, and
    /// none for anything else, which is left to the editor.
    pub fn handle(&self, keys: &Vec<Key>) -> (r: Option<Api<'static>>)
        ensures
            match handle_spec(keys@) {
                Some(Key::Up) => r matches Some(Api::DisplayPreviousCmd),
                Some(Key::Down) => r matches Some(Api::DisplayNextCmd),
                _ => r is None,
            },
    {
        if keys.len() == 1 {
            match keys[0] {
                Key::Up => Some(Api::DisplayPreviousCmd),
                Key::Down => Some(Api::DisplayNextCmd),
                Key::Other => None,
            }
        } else {
            None
        }
    }
}

} // verus!
