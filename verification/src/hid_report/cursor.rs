//! The absolute cursor report.

use super::mouse::MouseButtons;
use vstd::prelude::*;

verus! {

/// The report of an absolute pointer: buttons and position.
#[derive(Clone, Copy, Debug, PartialEq, Eq, Structural)]
pub struct CursorReport {
    pub buttons: u8,
    pub x: u16,
    pub y: u16,
}

impl Default for CursorReport {
    fn default() -> (r: Self)
        ensures
            r == (CursorReport { buttons: 0, x: 0, y: 0 }),
    {
        CursorReport { buttons: 0, x: 0, y: 0 }
    }
}

impl CursorReport {
    /// A report of `buttons` at the origin.
    pub fn with_buttons(buttons: MouseButtons) -> (r: Self)
        ensures
            r == (CursorReport { buttons: buttons.spec_bits(), x: 0, y: 0 }),
    {
        CursorReport { buttons: buttons.bits(), x: 0, y: 0 }
    }

    /// A report of the position `(x, y)` with no button pressed.
    pub fn with_position(x: u16, y: u16) -> (r: Self)
        ensures
            r == (CursorReport { buttons: 0, x, y }),
    {
        CursorReport { buttons: 0, x, y }
    }
}

} // verus!
