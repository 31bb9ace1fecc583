//! The pointer and the grab that owns its input.

use vstd::prelude::*;
use crate::focus::FocusTarget;
use crate::geometry::Point;

verus! {

/// What the pointer was focused on when a grab started.
#[derive(Clone, Copy, Debug, PartialEq, Eq, Structural)]
pub struct GrabFocus {
    pub target: FocusTarget,
    /// The client that owns the focused surface.
    pub client: u32,
    /// The location of the focused surface in the global space.
    pub origin: Point,
}

/// Data about the event that started a grab.
#[derive(Clone, Copy, Debug, PartialEq, Eq, Structural)]
pub struct GrabStartData {
    pub focus: Option<GrabFocus>,
    /// The button that started the grab.
    pub button: u32,
    /// The location of the click that started the grab.
    pub location: Point,
}

/// An interactive move of a window: the window follows the pointer, from
/// the anchor it had when the move began.
#[derive(Clone, Copy, Debug, PartialEq, Eq, Structural)]
pub struct MoveSurfaceGrab {
    pub start_data: GrabStartData,
    pub window: u64,
    pub initial_window_location: Point,
}

/// What an active grab does with the pointer's input.
#[derive(Clone, Copy, Debug, PartialEq, Eq, Structural)]
pub enum GrabKind {
    /// The grab that a button press installs: input goes to the surface
    /// that was clicked.
    Click,
    /// An interactive move.
    Move { window: u64, initial_window_location: Point },
}

/// The grab that owns the pointer's input, with the serial it was given.
#[derive(Clone, Copy, Debug, PartialEq, Eq, Structural)]
pub struct PointerGrab {
    pub serial: u32,
    pub start_data: GrabStartData,
    pub kind: GrabKind,
}

/// The one pointer of the one seat.
#[derive(Clone, Copy, Debug, PartialEq, Eq, Structural)]
pub struct PointerState {
    pub grab: Option<PointerGrab>,
    /// The pointer's location in the global space, in whole units.
    pub location: Point,
}

impl PointerState {
    /// The pointer is grabbed with the serial `serial`.
    pub open spec fn spec_has_grab(self, serial: u32) -> bool {
        self.grab matches Some(g) && g.serial == serial
    }

    /// The pointer with another grab.
    pub open spec fn with_grab(self, grab: Option<PointerGrab>) -> PointerState {
        PointerState { grab, ..self }
    }

    /// Whether the pointer is grabbed with the serial `serial`.
    pub fn has_grab(&self, serial: u32) -> (b: bool)
        ensures
            b == self.spec_has_grab(serial),
    {
        match self.grab {
            Some(g) => g.serial == serial,
            None => false,
        }
    }

    /// The start data of the active grab.
    pub fn grab_start_data(&self) -> (d: Option<GrabStartData>)
        ensures
            d == match self.grab {
                Some(g) => Some(g.start_data),
                None => None,
            },
    {
        match self.grab {
            Some(g) => Some(g.start_data),
            None => None,
        }
    }
}

} // verus!
