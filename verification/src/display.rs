//! Displays are the monitors that workspaces live on.

use crate::bbox::BBox;
use vstd::prelude::*;

verus! {

/// A display id.
pub type DisplayId = u32;

/// A display represents a monitor of an user. These can either be physical or virtual ones.
#[derive(Copy, Clone, Debug, Eq, Hash, PartialEq, Structural)]
pub struct Display {
    /// The unique id of the display.
    pub id: DisplayId,
    /// The bounding box of the display.
    pub bbox: BBox,
}

impl Default for Display {
    /// Returns the empty display: the id is zero, the bounding box is empty.
    fn default() -> (display: Self)
        ensures
            display == Display::empty(),
    {
        Display { id: 0, bbox: BBox::default() }
    }
}

impl Display {
    /// The empty display: the id is zero, the bounding box is empty.
    pub open spec fn empty() -> Display {
        Display { id: 0, bbox: BBox::empty() }
    }

    /// Creates an empty display.
    pub fn new() -> (display: Self)
        ensures
            display == Display::empty(),
    {
        Self::default()
    }

    /// Creates a new display with specific values.
    ///
    /// # Arguments
    ///
    /// - `id`: The id of the display
    /// - `bbox`: The bounding box of the display.
    pub fn with(id: DisplayId, bbox: BBox) -> (display: Self)
        ensures
            display == (Display { id, bbox }),
    {
        Self { id, bbox }
    }
}

} // verus!
