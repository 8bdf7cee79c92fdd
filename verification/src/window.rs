//! Window handles.

use vstd::prelude::*;

verus! {

/// A native window, known by the number of its handle. The handle is only
/// compared and handed on, never followed.
#[derive(Clone, Copy, Debug, PartialEq, Eq, Structural)]
pub struct Window(pub usize);

impl Default for Window {
    /// The null handle.
    fn default() -> (w: Window)
        ensures
            w == Window(0),
    {
        Window(0)
    }
}

} // verus!
