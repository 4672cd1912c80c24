//! Key presses and the picker actions they trigger.

use vstd::prelude::*;

verus! {

/// A key on the keyboard, as the terminal reports it.
#[derive(Clone, Copy, Debug, PartialEq, Eq, Structural)]
pub enum KeyCode {
    Backspace,
    Enter,
    Left,
    Right,
    Up,
    Down,
    Home,
    End,
    PageUp,
    PageDown,
    Tab,
    BackTab,
    Delete,
    Insert,
    F(u8),
    Char(char),
    Null,
    Esc,
    CapsLock,
    ScrollLock,
    NumLock,
    PrintScreen,
    Pause,
    Menu,
    KeypadBegin,
    Media,
    Modifier,
}

/// The modifier keys held with a key. `Bits` carries any combination as a
/// bit set: shift 1, control 2, alt 4, super 8, hyper 16, meta 32; the named
/// variants are the single ones the bindings use.
#[allow(non_camel_case_types)]
#[derive(Clone, Copy, Debug, PartialEq, Eq, Structural)]
pub enum KeyModifiers {
    NONE,
    SHIFT,
    CONTROL,
    ALT,
    Bits(u8),
}

impl KeyModifiers {
    /// The modifiers as a bit set.
    pub open spec fn spec_bits(self) -> u8 {
        match self {
            KeyModifiers::NONE => 0,
            KeyModifiers::SHIFT => 1,
            KeyModifiers::CONTROL => 2,
            KeyModifiers::ALT => 4,
            KeyModifiers::Bits(b) => b,
        }
    }

    /// The modifiers as a bit set.
    pub fn bits(self) -> (b: u8)
        ensures
            b == self.spec_bits(),
    {
        match self {
            KeyModifiers::NONE => 0,
            KeyModifiers::SHIFT => 1,
            KeyModifiers::CONTROL => 2,
            KeyModifiers::ALT => 4,
            KeyModifiers::Bits(b) => b,
        }
    }
}

/// A key press with its modifiers.
#[derive(Clone, Copy, Debug, PartialEq, Eq, Structural)]
pub struct KeyEvent {
    pub code: KeyCode,
    pub modifiers: KeyModifiers,
}

impl KeyEvent {
    pub fn new(code: KeyCode, modifiers: KeyModifiers) -> (k: KeyEvent)
        ensures
            k.code == code,
            k.modifiers == modifiers,
    {
        KeyEvent { code, modifiers }
    }
}

/// What a key press asks the picker to do.
#[derive(Clone, Copy, Debug, PartialEq, Eq, Structural)]
pub enum Action {
    InsertChar(char),
    DeleteCharBackward,
    DeleteWordBackward,
    DeleteToStart,
    CursorLeft,
    CursorRight,
    CursorToStart,
    CursorToEnd,
    MoveUp,
    MoveDown,
    PageUp,
    PageDown,
    Confirm,
    Cancel,
    Noop,
}

/// The action bound to Ctrl and the letter `c`, if any.
pub open spec fn control_action(c: char) -> Option<Action> {
    if c == 'c' || c == 'g' {
        Some(Action::Cancel)
    } else if c == 'k' || c == 'p' {
        Some(Action::MoveUp)
    } else if c == 'j' || c == 'n' {
        Some(Action::MoveDown)
    } else if c == 'b' {
        Some(Action::CursorLeft)
    } else if c == 'f' {
        Some(Action::CursorRight)
    } else if c == 'a' {
        Some(Action::CursorToStart)
    } else if c == 'e' {
        Some(Action::CursorToEnd)
    } else if c == 'h' {
        Some(Action::DeleteCharBackward)
    } else if c == 'w' {
        Some(Action::DeleteWordBackward)
    } else if c == 'u' {
        Some(Action::DeleteToStart)
    } else {
        None
    }
}

/// The key bindings of the picker (fzf-compatible).
pub open spec fn key_action(key: KeyEvent) -> Action {
    match key.code {
        KeyCode::Esc => Action::Cancel,
        KeyCode::Enter => Action::Confirm,
        KeyCode::Up | KeyCode::BackTab => Action::MoveUp,
        KeyCode::Down | KeyCode::Tab => Action::MoveDown,
        KeyCode::PageUp => Action::PageUp,
        KeyCode::PageDown => Action::PageDown,
        KeyCode::Left => Action::CursorLeft,
        KeyCode::Right => Action::CursorRight,
        KeyCode::Backspace => Action::DeleteCharBackward,
        KeyCode::Char(c) => {
            if key.modifiers.spec_bits() == 2 && control_action(c) is Some {
                control_action(c)->0
            } else if key.modifiers.spec_bits() == 0 || key.modifiers.spec_bits() == 1 {
                Action::InsertChar(c)
            } else {
                Action::Noop
            }
        },
        _ => Action::Noop,
    }
}

/// Maps a key press to the picker action bound to it.
pub fn key_to_action(key: KeyEvent) -> (a: Action)
    ensures
        a == key_action(key),
{
    let bits = key.modifiers.bits();
    let control = bits == 2;
    match key.code {
        KeyCode::Esc => Action::Cancel,
        KeyCode::Enter => Action::Confirm,
        KeyCode::Up => Action::MoveUp,
        KeyCode::BackTab => Action::MoveUp,
        KeyCode::Down => Action::MoveDown,
        KeyCode::Tab => Action::MoveDown,
        KeyCode::PageUp => Action::PageUp,
        KeyCode::PageDown => Action::PageDown,
        KeyCode::Left => Action::CursorLeft,
        KeyCode::Right => Action::CursorRight,
        KeyCode::Backspace => Action::DeleteCharBackward,
        KeyCode::Char(c) => {
            if control && (c == 'c' || c == 'g') {
                Action::Cancel
            } else if control && (c == 'k' || c == 'p') {
                Action::MoveUp
            } else if control && (c == 'j' || c == 'n') {
                Action::MoveDown
            } else if control && c == 'b' {
                Action::CursorLeft
            } else if control && c == 'f' {
                Action::CursorRight
            } else if control && c == 'a' {
                Action::CursorToStart
            } else if control && c == 'e' {
                Action::CursorToEnd
            } else if control && c == 'h' {
                Action::DeleteCharBackward
            } else if control && c == 'w' {
                Action::DeleteWordBackward
            } else if control && c == 'u' {
                Action::DeleteToStart
            } else if bits == 0 || bits == 1 {
                Action::InsertChar(c)
            } else {
                Action::Noop
            }
        },
        _ => Action::Noop,
    }
}

} // verus!
