//! Keys as the client hears them.

use vstd::prelude::*;

verus! {

/// Which key was pressed.
#[derive(Clone, Copy, Debug, PartialEq, Eq, Structural)]
pub enum KeyCode {
    Char(char),
    Enter,
    Esc,
    Tab,
    BackTab,
    Backspace,
    Up,
    Down,
    Left,
    Right,
    PageUp,
    PageDown,
    Other,
}

/// A key and what was held with it.
#[derive(Clone, Copy, Debug, PartialEq, Eq, Structural)]
pub struct Key {
    pub code: KeyCode,
    pub control: bool,
    pub alt: bool,
}

impl Key {
    /// A key with nothing held.
    pub fn plain(code: KeyCode) -> (r: Key)
        ensures
            r == (Key { code, control: false, alt: false }),
    {
        Key { code, control: false, alt: false }
    }

    /// A key with Control held.
    pub fn control(code: KeyCode) -> (r: Key)
        ensures
            r == (Key { code, control: true, alt: false }),
    {
        Key { code, control: true, alt: false }
    }
}

} // verus!
