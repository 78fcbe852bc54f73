use vstd::prelude::*;

use crate::geometry::Size;
use crate::time::Moment;

verus! {

/// Modifier flags normalized from terminal input.
#[derive(Clone, Copy, Debug, Default, PartialEq, Eq, Structural)]
pub struct KeyModifiers {
    pub ctrl: bool,
    pub alt: bool,
    pub shift: bool,
}

/// Keyboard keys supported by the terminal-independent event model.
#[derive(Clone, Copy, Debug, PartialEq, Eq, Structural)]
pub enum KeyCode {
    Char(char),
    Enter,
    Escape,
    Backspace,
    Delete,
    Tab,
    Left,
    Right,
    Up,
    Down,
    PageUp,
    PageDown,
    Home,
    End,
}

/// A normalized key press and its modifiers.
#[derive(Clone, Copy, Debug, PartialEq, Eq, Structural)]
pub struct KeyEvent {
    pub code: KeyCode,
    pub modifiers: KeyModifiers,
}

impl KeyModifiers {
    /// No modifier held.
    pub open spec fn none() -> KeyModifiers {
        KeyModifiers { ctrl: false, alt: false, shift: false }
    }
}

impl KeyEvent {
    /// A key press of `code` without modifiers.
    pub open spec fn spec_plain(code: KeyCode) -> KeyEvent {
        KeyEvent { code, modifiers: KeyModifiers::none() }
    }

    /// A plain character key press without modifiers.
    pub fn character(character: char) -> (k: Self)
        ensures
            k == (KeyEvent { code: KeyCode::Char(character), modifiers: KeyModifiers::none() }),
    {
        KeyEvent {
            code: KeyCode::Char(character),
            modifiers: KeyModifiers { ctrl: false, alt: false, shift: false },
        }
    }
}

/// Mouse buttons represented by [`MouseEvent`].
#[derive(Clone, Copy, Debug, PartialEq, Eq, Structural)]
pub enum MouseButton {
    Left,
    Right,
    Middle,
}

/// Supported normalized mouse actions.
#[derive(Clone, Copy, Debug, PartialEq, Eq, Structural)]
pub enum MouseKind {
    LeftDown,
    LeftUp,
    RightDown,
    RightUp,
    MiddleDown,
    MiddleUp,
    ScrollUp,
    ScrollDown,
    Move,
    Drag(MouseButton),
}

/// A zero-based terminal mouse event.
#[derive(Clone, Copy, Debug, PartialEq, Eq, Structural)]
pub struct MouseEvent {
    pub x: u16,
    pub y: u16,
    pub kind: MouseKind,
    pub modifiers: KeyModifiers,
}

/// Input, resize, or application-tick event; applications own routing policy.
#[derive(Clone, Copy, Debug, PartialEq, Eq)]
pub enum Event {
    Key(KeyEvent),
    Mouse(MouseEvent),
    Resize(Size),
    Tick(Moment),
}

/// Returns whether `character` is the conventional application-level quit shortcut.
///
/// Applications own event routing and may choose a different quit policy.
pub fn is_quit_key(character: char) -> (b: bool)
    ensures
        b == (character == 'q'),
{
    character == 'q'
}

} // verus!
