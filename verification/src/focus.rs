//! What the keyboard or the pointer can be focused on.

use vstd::prelude::*;

verus! {

/// A thing that can hold the focus, by its identity.
///
/// A focus target refers to a window or a layer surface; it owns neither.
#[derive(Clone, Copy, Debug, PartialEq, Eq, Structural)]
pub enum FocusTarget {
    Window(u64),
    LayerSurface(u64),
}

/// Which output is focused and what holds the focus.
#[derive(Clone, Copy, Debug, PartialEq, Eq, Structural)]
pub struct FocusState {
    /// The identity of the focused output.
    pub output: Option<u32>,
    pub focus_target: Option<FocusTarget>,
}

impl FocusState {
    /// The state with another focus target.
    pub open spec fn with_target(self, target: Option<FocusTarget>) -> FocusState {
        FocusState { focus_target: target, ..self }
    }
}

} // verus!
