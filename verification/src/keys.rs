//! Key and mouse events as plain values.

use vstd::prelude::*;

verus! {

/// A key of the keyboard.
#[derive(Clone, Copy, Debug, PartialEq, Eq, Structural)]
pub enum KeyCode {
    Esc,
    Enter,
    Up,
    Down,
    Left,
    Right,
    PageUp,
    PageDown,
    Home,
    End,
    Backspace,
    Tab,
    BackTab,
    Delete,
    Insert,
    F(u8),
    Char(char),
    Null,
}

/// The modifier keys held while a key was pressed.
#[derive(Clone, Copy, Debug, PartialEq, Eq, Structural)]
pub struct KeyModifiers {
    pub shift: bool,
    pub control: bool,
    pub alt: bool,
    pub superKey: bool,
}

/// A key press.
#[derive(Clone, Copy, Debug, PartialEq, Eq, Structural)]
pub struct KeyEvent {
    pub code: KeyCode,
    pub modifiers: KeyModifiers,
}

impl KeyEvent {
    /// A key pressed without any modifier.
    #[verifier::allow_in_spec]
    pub fn plain(code: KeyCode) -> KeyEvent
        returns
            (KeyEvent {
                code,
                modifiers: KeyModifiers { shift: false, control: false, alt: false, superKey: false },
            }),
    {
        KeyEvent { code, modifiers: KeyModifiers { shift: false, control: false, alt: false, superKey: false } }
    }

    /// A key pressed with Ctrl held.
    #[verifier::allow_in_spec]
    pub fn ctrl(code: KeyCode) -> KeyEvent
        returns
            (KeyEvent {
                code,
                modifiers: KeyModifiers { shift: false, control: true, alt: false, superKey: false },
            }),
    {
        KeyEvent { code, modifiers: KeyModifiers { shift: false, control: true, alt: false, superKey: false } }
    }
}

} // verus!
