//! A middle layout leaves every tile where it is.

use crate::bbox::BBox;
use crate::layout::laid_out;
use crate::layout::invalidated;
use crate::layout::Layout;
use crate::layout::LayoutMeta;
use crate::layout::LayoutUpdateInfo;
use crate::tile::Tile;
use vstd::prelude::*;

verus! {

/// A layout that tracks whether it is dirty and changes no bounding box.
#[derive(Copy, Clone, Debug, Eq, Hash, PartialEq, Structural)]
pub struct MiddleLayout {
    dirty: bool,
}

impl Default for MiddleLayout {
    /// Returns a dirty middle layout.
    fn default() -> (layout: Self)
        ensures
            layout.dirty(),
    {
        MiddleLayout { dirty: true }
    }
}

impl MiddleLayout {
    /// The logic behind the middle layout: there is none.
    fn layout0<'a>(&mut self, _update_info: &'a mut LayoutUpdateInfo<'a>)
        ensures
            *final(self) == *old(self),
            final(_update_info).workspace_bbox == old(_update_info).workspace_bbox,
            *final(final(_update_info).tiles) == *final(old(_update_info).tiles),
            final(_update_info).tiles@ == old(_update_info).tiles@,
    {
    }
}

impl Layout for MiddleLayout {
    open spec fn name(&self) -> Seq<char> {
        "Middle Layout"@
    }

    closed spec fn dirty(&self) -> bool {
        self.dirty
    }

    open spec fn placed(&self, tiles: Seq<Tile>, workspace_bbox: BBox) -> Seq<Tile> {
        tiles
    }

    fn metadata(&self) -> (meta: LayoutMeta) {
        LayoutMeta { name: "Middle Layout".to_string() }
    }

    fn invalidate(&mut self) {
        self.dirty = true;
    }

    fn is_dirty(&self) -> (dirty: bool) {
        self.dirty
    }

    fn layout<'a>(&mut self, update_info: &'a mut LayoutUpdateInfo<'a>) {
        if self.is_dirty() {
            self.layout0(update_info);
            self.dirty = false;
        }
    }
}

} // verus!
