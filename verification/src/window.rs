//! Windows are used to represent running programs of a user.

use crate::bbox::BBox;
use vstd::prelude::*;

verus! {

/// A window id.
pub type WindowId = u32;

/// A window handle.
pub type WindowHandle = i32;

/// A window.
#[derive(Copy, Clone, Debug, Eq, Hash, PartialEq, Structural)]
pub struct Window {
    /// The unique id of a window.
    pub id: WindowId,
    /// The OS' window handle.
    pub handle: WindowHandle,
    /// The original bounding box of the window before resizing it using a
    /// layout.
    pub original_bbox: BBox,
}

impl Default for Window {
    /// Returns the empty window: id and handle are zero, the bounding box is empty.
    fn default() -> (window: Self)
        ensures
            window == Window::empty(),
    {
        Window { id: 0, handle: 0, original_bbox: BBox::default() }
    }
}

impl Window {
    /// The empty window: id and handle are zero, the bounding box is empty.
    pub open spec fn empty() -> Window {
        Window { id: 0, handle: 0, original_bbox: BBox::empty() }
    }

    /// Creates an empty window.
    pub fn new() -> (window: Self)
        ensures
            window == Window::empty(),
    {
        Self::default()
    }

    /// Creates a window.
    ///
    /// # Arguments
    ///
    /// - `id`: The window id.
    /// - `handle`: The window handle.
    /// - `original_bbox`: The original bounding box.
    pub fn with(id: WindowId, handle: WindowHandle, original_bbox: BBox) -> (window: Self)
        ensures
            window == (Window { id, handle, original_bbox }),
    {
        Self { id, handle, original_bbox }
    }
}

} // verus!
