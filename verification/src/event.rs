//! What the terminal reports: keys and the scroll wheel.

use vstd::prelude::*;

verus! {

/// A key, as far as the viewer tells keys apart.
#[derive(Clone, Copy, Debug, PartialEq, Eq)]
pub enum Key {
    /// A key that types a character.
    Char(char),
    Up,
    Down,
    Left,
    Right,
    Esc,
    /// Any other key.
    Other,
}

/// What the pointer did.
#[derive(Clone, Copy, Debug, PartialEq, Eq)]
pub enum Pointer {
    ScrollUp,
    ScrollDown,
    /// A click, a drag or a move.
    Other,
}

/// One event of the terminal.
#[derive(Clone, Copy, Debug, PartialEq, Eq)]
pub enum Event {
    KeyPress(Key),
    PointerScroll(Pointer),
    /// A resize, a paste, a change of focus.
    Other,
}

} // verus!
