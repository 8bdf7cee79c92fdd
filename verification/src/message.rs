//! The events that the listeners put on the bus.

use crate::hotkey::HotkeyType;
use crate::window::Window;
use vstd::prelude::*;

verus! {

/// One event on the bus.
#[derive(Clone, Debug, PartialEq, Eq)]
pub enum Message {
    /// A registered hotkey fired: its slot, and the command bound to it.
    HotkeyPressed(HotkeyType, String),
    /// The cursor is over this window: a request to watch for its leaving.
    TrackMouse(Window),
    /// The focus moved to this window.
    ActiveWindowChange(Window),
    /// The cursor left the watched window.
    MouseLeft,
    /// The utility is to end.
    Exit,
}

} // verus!
