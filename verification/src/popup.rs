//! Popups, as far as placing them is concerned.

use vstd::prelude::*;
use crate::geometry::Point;

verus! {

/// A popup surface and its place in the chain of its parents.
#[derive(Clone, Copy, Debug, PartialEq, Eq, Structural)]
pub struct Popup {
    /// The surface at the root of the popup's chain of parents, where it
    /// can be found.
    pub root: Option<u64>,
    /// The popup's offset from the toplevel at the root of its chain.
    pub toplevel_coords: Point,
}

} // verus!
