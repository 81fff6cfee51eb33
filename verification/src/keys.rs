//! Key presses as plain values: the terminal's key code and modifiers, and
//! the editing input that a text area reads from the same press.
use vstd::prelude::*;

verus! {

/// The terminal's raw key event, carried through to the widgets that read it.
#[verifier::external_type_specification]
#[verifier::external_body]
pub struct ExKeyEvent(ratatui::crossterm::event::KeyEvent);

/// A terminal key code.
#[derive(Clone, Copy, Debug, PartialEq, Eq, Structural)]
pub enum KeyCode {
    Char(char),
    Enter,
    Esc,
    Backspace,
    Tab,
    BackTab,
    Left,
    Right,
    Up,
    Down,
    Home,
    End,
    PageUp,
    PageDown,
    Delete,
    Insert,
    F(u8),
    Null,
    Other,
}

/// The modifier keys held with a key.
#[derive(Clone, Copy, Debug, PartialEq, Eq, Structural)]
pub struct Modifiers {
    pub shift: bool,
    pub control: bool,
    pub alt: bool,
    pub super_key: bool,
    pub hyper: bool,
    pub meta: bool,
}

impl Modifiers {
    /// Exactly Control is held.
    pub open spec fn is_control(self) -> bool {
        self.control && !self.shift && !self.alt && !self.super_key && !self.hyper && !self.meta
    }

    /// Exactly Alt is held.
    pub open spec fn is_alt(self) -> bool {
        self.alt && !self.shift && !self.control && !self.super_key && !self.hyper && !self.meta
    }

    pub fn only_control(&self) -> (r: bool)
        ensures
            r == self.is_control(),
    {
        self.control && !self.shift && !self.alt && !self.super_key && !self.hyper && !self.meta
    }

    pub fn only_alt(&self) -> (r: bool)
        ensures
            r == self.is_alt(),
    {
        self.alt && !self.shift && !self.control && !self.super_key && !self.hyper && !self.meta
    }
}

/// A key as a text area reads it from a terminal key event (the keys that
/// only other terminal back ends report do not occur).
#[derive(Clone, Copy, Debug, PartialEq, Eq, Structural)]
pub enum Key {
    Char(char),
    F(u8),
    Backspace,
    Enter,
    Left,
    Right,
    Up,
    Down,
    Tab,
    Delete,
    Home,
    End,
    PageUp,
    PageDown,
    Esc,
    Null,
}

/// A text-area input: a key and the Ctrl, Alt and Shift flags.
#[derive(Clone, Copy, Debug, PartialEq, Eq, Structural)]
pub struct Input {
    pub key: Key,
    pub ctrl: bool,
    pub alt: bool,
    pub shift: bool,
}

impl Input {
    /// The empty input (the `Null` key, no modifiers).
    pub fn null() -> (r: Input)
        ensures
            r == (Input { key: Key::Null, ctrl: false, alt: false, shift: false }),
    {
        Input { key: Key::Null, ctrl: false, alt: false, shift: false }
    }
}

/// One key press: the terminal's view (code and modifiers), the text-area
/// view of the same press, and the raw event for the widgets.
pub struct KeyPress {
    pub code: KeyCode,
    pub modifiers: Modifiers,
    pub input: Input,
    pub raw: ratatui::crossterm::event::KeyEvent,
}

} // verus!
