//! Input events and the result values that event handlers report.
//!
//! Events carry plain key codes, modifier flags and terminal-cell
//! coordinates; the terminal backend that produces them stays outside this
//! library.

use vstd::prelude::*;

verus! {

/// A key on the keyboard.
#[derive(Clone, Copy, Debug, PartialEq, Eq, Structural)]
pub enum KeyCode {
    Char(char),
    Enter,
    Esc,
    Backspace,
    Tab,
    Up,
    Down,
    Left,
    Right,
}

/// Modifier keys held during a key press.
#[derive(Clone, Copy, Debug, PartialEq, Eq, Structural)]
pub struct KeyModifiers {
    pub shift: bool,
    pub control: bool,
    pub alt: bool,
}

impl KeyModifiers {
    pub open spec fn spec_is_empty(self) -> bool {
        !self.shift && !self.control && !self.alt
    }

    /// True iff no modifier key is held.
    pub fn is_empty(&self) -> (r: bool)
        ensures
            r == self.spec_is_empty(),
    {
        !self.shift && !self.control && !self.alt
    }

    pub fn none() -> (r: KeyModifiers)
        ensures
            r.spec_is_empty(),
    {
        KeyModifiers { shift: false, control: false, alt: false }
    }
}

/// A key press together with its modifiers.
#[derive(Clone, Copy, Debug, PartialEq, Eq, Structural)]
pub struct KeyEvent {
    pub code: KeyCode,
    pub modifiers: KeyModifiers,
}

/// A mouse button.
#[derive(Clone, Copy, Debug, PartialEq, Eq, Structural)]
pub enum MouseButton {
    Left,
    Right,
    Middle,
}

/// What a mouse event reports.
#[derive(Clone, Copy, Debug, PartialEq, Eq, Structural)]
pub enum MouseEventKind {
    Down(MouseButton),
    Up(MouseButton),
    Drag(MouseButton),
    Moved,
    ScrollDown,
    ScrollUp,
}

/// A mouse event at an absolute terminal cell.
#[derive(Clone, Copy, Debug, PartialEq, Eq, Structural)]
pub struct MouseEvent {
    pub kind: MouseEventKind,
    pub column: u16,
    pub row: u16,
}

/// An input event routed to a component.
#[derive(Clone, Copy, Debug, PartialEq, Eq, Structural)]
pub enum Event {
    Keyboard(KeyEvent),
    Mouse(MouseEvent),
}

/// Whether a component consumed an event.
#[derive(Clone, Copy, Debug, PartialEq, Eq, Structural)]
pub enum Status {
    Captured,
    Ignored,
}

/// Whether handling an event requires a redraw.
#[derive(Clone, Copy, Debug, PartialEq, Eq, Structural)]
pub enum WidgetEventResult {
    Redraw,
    NoRedraw,
}

/// Whether a widget consumed a directional selection movement itself.
#[derive(Clone, Copy, Debug, PartialEq, Eq, Structural)]
pub enum SelectionAction {
    Handled,
    NotHandled,
}

} // verus!
