//! Input events as the editor core sees them, and the actions it hands back.
//!
//! The terminal backend translates its own key and mouse event types into
//! these plain values before calling into the core.

use vstd::prelude::*;

verus! {

/// A discrete keyboard event: a printable character or a named key.
#[derive(Clone, Copy, PartialEq, Eq, Debug)]
pub enum KeyPress {
    Char(char),
    Up,
    Down,
    Left,
    Right,
    Backspace,
    Enter,
    Esc,
}

/// A discrete mouse event. Only wheel scrolling moves the editor; anything
/// else is ignored.
#[derive(Clone, Copy, PartialEq, Eq, Debug)]
pub enum MouseInput {
    ScrollUp,
    ScrollDown,
    Other,
}

/// What the event loop must do after the core has processed an event.
/// `Save` and `SaveAndQuit` carry no payload: the loop asks the core for the
/// serialized buffer and the filename.
#[derive(Clone, Copy, PartialEq, Eq, Debug)]
pub enum EditorAction {
    Continue,
    Quit,
    Save,
    SaveAndQuit,
}

} // verus!
