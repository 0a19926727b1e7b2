//! Key presses, as the editor state machine reads them.

use vstd::prelude::*;

verus! {

/// A key.
#[derive(Clone, Copy, Debug, PartialEq, Eq, Structural)]
pub enum KeyCode {
    Char(char),
    F(u8),
    Backspace,
    Enter,
    Left,
    Right,
    Up,
    Down,
    Tab,
    Delete,
    Home,
    End,
    PageUp,
    PageDown,
    Esc,
    /// Any other key; the editor ignores it.
    Null,
}

/// A key press: the key and whether Ctrl was held, as the state machine
/// reads them, and the same press as the field editor takes it.
#[derive(Debug)]
pub struct KeyInput {
    pub code: KeyCode,
    pub ctrl: bool,
    pub raw: tui_textarea::Input,
}

} // verus!
