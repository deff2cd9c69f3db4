//! Keyboard and mouse input data carried over the data channel. The
//! injection of these events into the desktop is the caller's job;
//! pointer coordinates travel as normalized floating-point values and
//! stay outside this library.

use vstd::prelude::*;

verus! {

/// Keyboard input: a special key, a printable character, or a raw
/// key code.
#[derive(Debug, Clone, Copy, PartialEq, Eq, Structural)]
pub enum KeyInput {
    SpecialKey(SpecialKeyInput),
    AlphaKey(char),
    RawKey(u16),
}

/// Mouse buttons.
#[derive(Debug, Clone, Copy, PartialEq, Eq, Structural)]
pub enum MouseButton {
    Left,
    Middle,
    Right,
}

/// The special input keys the injector supports.
#[derive(Debug, Clone, Copy, PartialEq, Eq, Structural)]
pub enum SpecialKeyInput {
    Alt,
    Backspace,
    CapsLock,
    Control,
    Delete,
    DownArrow,
    End,
    Escape,
    F1,
    F10,
    F11,
    F12,
    F2,
    F3,
    F4,
    F5,
    F6,
    F7,
    F8,
    F9,
    Home,
    LeftArrow,
    Meta,
    Option,
    PageDown,
    PageUp,
    Return,
    RightArrow,
    Shift,
    Space,
    Tab,
    UpArrow,
}

} // verus!
