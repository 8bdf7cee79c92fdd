//! The window-hook listener: what it puts on the bus when the focus moves and
//! when the cursor leaves.

use crate::message::Message;
use crate::window::Window;
use vstd::prelude::*;

verus! {

/// The listener's own state: the window, if any, for which a notice of the
/// cursor's leaving is armed.
#[derive(Clone, Copy, Debug, PartialEq, Eq, Structural)]
pub struct HookListener {
    pub armed: Option<Window>,
}

impl HookListener {
    /// A listener with nothing armed.
    pub fn new() -> (l: HookListener)
        ensures
            l.armed is None,
    {
        HookListener { armed: None }
    }

    /// The focus moved to `window`: reports the change and asks for the
    /// cursor to be watched there, in that order.
    pub fn on_focus_change(&mut self, window: Window) -> (out: Vec<Message>)
        ensures
            out@ == seq![Message::ActiveWindowChange(window), Message::TrackMouse(window)],
            final(self).armed == Some(window),
    {
        self.armed = Some(window);
        let mut out: Vec<Message> = Vec::new();
        out.push(Message::ActiveWindowChange(window));
        out.push(Message::TrackMouse(window));
        assert(out@ =~= seq![Message::ActiveWindowChange(window), Message::TrackMouse(window)]);
        out
    }

    /// The cursor left `window`. Where that is the window armed, reports it
    /// and disarms; a notice for any other window is dropped.
    pub fn on_mouse_leave(&mut self, window: Window) -> (out: Option<Message>)
        ensures
            old(self).armed == Some(window) ==> out == Some(Message::MouseLeft)
                && final(self).armed is None,
            old(self).armed != Some(window) ==> out is None && *final(self) == *old(self),
    {
        match self.armed {
            Some(w) => {
                if w.0 == window.0 {
                    self.armed = None;
                    Some(Message::MouseLeft)
                } else {
                    None
                }
            },
            None => None,
        }
    }
}

} // verus!
