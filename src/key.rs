use vstd::prelude::*;

verus! {

/// An abstract input event, decoupled from any terminal's own encoding.
#[derive(Clone, Copy, Debug, PartialEq, Eq, Structural)]
pub enum Key {
    /// Confirms the current input.
    Submit,
    /// Aborts the prompt.
    Cancel,
    /// Inserts a character at the cursor.
    Char(char),
    /// Removes the character before the cursor.
    Backspace,
    /// Removes the character under the cursor.
    Delete,
    MoveLeft,
    MoveRight,
    /// Moves the cursor to the start of the line.
    MoveHome,
    /// Moves the cursor past the last character.
    MoveEnd,
}

} // verus!
