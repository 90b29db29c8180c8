//! Keys and key events, as the keyboard driver reports them.

use vstd::prelude::*;

verus! {

/// A key of the keyboard.
#[derive(Debug, Clone, Copy, PartialEq, Eq, Structural)]
pub enum Key {
    LeftShift,
    RightShift,
    LeftCtrl,
    RightCtrl,
    LeftAlt,
    RightAlt,
    CapsLock,
    Backspace,
    Enter,
    Tab,
    Up,
    Down,
    Left,
    Right,
    /// A key that types a character: its ASCII code in lower and in upper case.
    Printable { lower: u8, upper: u8 },
    /// A key that types nothing.
    Other,
}

/// A key going down or coming up.
#[derive(Debug, Clone, Copy, PartialEq, Eq, Structural)]
pub enum KeyEvent {
    Pressed(Key),
    Released(Key),
}

/// The ASCII code a key types, in upper or lower case.
pub open spec fn key_ascii(k: Key, upper: bool) -> Option<u8> {
    match k {
        Key::Printable { lower, upper: up } => Some(if upper { up } else { lower }),
        _ => None,
    }
}

impl Key {
    /// The ASCII code the key types, in upper case where `upper` holds.
    pub fn to_ascii(&self, upper: bool) -> (r: Option<u8>)
        ensures
            r == key_ascii(*self, upper),
    {
        match self {
            Key::Printable { lower, upper: up } => Some(if upper { *up } else { *lower }),
            _ => None,
        }
    }
}

} // verus!
