//! A layout is responsible for laying out tiles inside a workspace.
//!
//! This is done by changing the bounding box of each tile according to the layout's
//! implementation details. A layout is either dirty or clean: it starts dirty, `invalidate`
//! makes it dirty, and a layout pass makes it clean. Only a dirty layout recomputes.

use crate::bbox::BBox;
use crate::layout::middle_layout::MiddleLayout;
use crate::layout::sided_layout::SidedLayout;
use crate::tile::distinct_ids;
use crate::tile::Tile;
use crate::util::Direction;
use vstd::prelude::*;

pub mod middle_layout;
pub mod sided_layout;

verus! {

/// Metadata associated with a layout.
#[derive(Clone, Debug, Eq, Hash, PartialEq)]
pub struct LayoutMeta {
    /// The name of the layout. This should be a human-readable string.
    pub name: String,
}

/// The information needed to update tiles inside a workspace.
#[derive(Debug, Eq, Hash, PartialEq)]
pub struct LayoutUpdateInfo<'a> {
    /// A mutable list of all tiles.
    pub tiles: &'a mut Vec<Tile>,
    /// The bounding box of the workspace. Tiles should only be layed out inside these boundaries!
    pub workspace_bbox: BBox,
}

/// A layout.
pub trait Layout: Sized {
    /// The human-readable name of the layout.
    spec fn name(&self) -> Seq<char>;

    /// Whether the layout is dirty: whether the next layout pass recomputes.
    spec fn dirty(&self) -> bool;

    /// The tiles as a recomputation inside `workspace_bbox` places them.
    spec fn placed(&self, tiles: Seq<Tile>, workspace_bbox: BBox) -> Seq<Tile>;

    /// Returns the metadata of the layout.
    fn metadata(&self) -> (meta: LayoutMeta)
        ensures
            meta.name@ == self.name(),
    ;

    /// Invalidates the layout and makes re-calculations possible.
    ///
    /// The layout is dirty afterwards; its name and the way it places tiles stay as they are.
    fn invalidate(&mut self)
        ensures
            final(self).dirty(),
            final(self).name() == old(self).name(),
            forall|tiles: Seq<Tile>, workspace_bbox: BBox|
                #[trigger] final(self).placed(tiles, workspace_bbox) == old(self).placed(
                    tiles,
                    workspace_bbox,
                ),
    ;

    /// Returns whether the layout is dirty or not. Dirty layouts need re-calculations.
    fn is_dirty(&self) -> (dirty: bool)
        ensures
            dirty == self.dirty(),
    ;

    /// Lays out tiles by changing their bbox.
    ///
    /// A clean layout leaves the tiles as they are. A dirty layout places the tiles, unless
    /// there are none. The layout is clean afterwards; its name and the way it places tiles
    /// stay as they are. The update information still refers to the same list of tiles and
    /// the same bounding box.
    fn layout<'a>(&mut self, update_info: &'a mut LayoutUpdateInfo<'a>)
        ensures
            final(update_info).workspace_bbox == old(update_info).workspace_bbox,
            *final(final(update_info).tiles) == *final(old(update_info).tiles),
            !final(self).dirty(),
            final(self).name() == old(self).name(),
            forall|tiles: Seq<Tile>, workspace_bbox: BBox|
                #[trigger] final(self).placed(tiles, workspace_bbox) == old(self).placed(
                    tiles,
                    workspace_bbox,
                ),
            final(update_info).tiles@ == (if old(self).dirty() && old(update_info).tiles@.len()
                > 0 {
                old(self).placed(old(update_info).tiles@, old(update_info).workspace_bbox)
            } else {
                old(update_info).tiles@
            }),
            same_but_bboxes(old(update_info).tiles@, final(update_info).tiles@),
    ;
}

/// Whether the tiles `after` are the tiles `before` with, at most, other bounding boxes: there
/// are as many, and each has the id and the window that it had.
pub open spec fn same_but_bboxes(before: Seq<Tile>, after: Seq<Tile>) -> bool {
    &&& after.len() == before.len()
    &&& forall|index: int|
        0 <= index < before.len() ==> (#[trigger] after[index]) == before[index].placed_at(
            after[index].bbox,
        )
}

/// Tiles that differ at most in their bounding boxes share their ids: if no two had the same
/// id before, no two have the same id after.
pub proof fn lemma_same_but_bboxes_keeps_ids(before: Seq<Tile>, after: Seq<Tile>)
    requires
        same_but_bboxes(before, after),
    ensures
        forall|index: int|
            0 <= index < before.len() ==> (#[trigger] after[index]).id == before[index].id,
        distinct_ids(before) ==> distinct_ids(after),
{
    assert forall|index: int| 0 <= index < before.len() implies (#[trigger] after[index]).id
        == before[index].id by {
        assert(after[index] == before[index].placed_at(after[index].bbox));
    }
}

/// Whether `after` is `before` made dirty: nothing else about the layout changes.
pub open spec fn invalidated<L: Layout>(before: L, after: L) -> bool {
    &&& after.dirty()
    &&& same_strategy(before, after)
}

/// Whether two layouts have the same name and place all tiles alike: they differ at most in
/// being dirty.
pub open spec fn same_strategy<L: Layout>(before: L, after: L) -> bool {
    &&& after.name() == before.name()
    &&& forall|tiles: Seq<Tile>, workspace_bbox: BBox|
        #[trigger] after.placed(tiles, workspace_bbox) == before.placed(tiles, workspace_bbox)
}

/// The tiles after a layout pass of the layout `before` inside `workspace_bbox`: placed anew
/// if the layout is dirty and there is a tile, as they were otherwise.
pub open spec fn tiles_after_layout<L: Layout>(
    before: L,
    tiles: Seq<Tile>,
    workspace_bbox: BBox,
) -> Seq<Tile> {
    if before.dirty() && tiles.len() > 0 {
        before.placed(tiles, workspace_bbox)
    } else {
        tiles
    }
}

/// Whether a layout pass inside `workspace_bbox` leads from the layout `before` and the tiles
/// `tiles_before` to the layout `after` and the tiles `tiles_after`.
pub open spec fn laid_out<L: Layout>(
    before: L,
    after: L,
    tiles_before: Seq<Tile>,
    tiles_after: Seq<Tile>,
    workspace_bbox: BBox,
) -> bool {
    &&& !after.dirty()
    &&& same_strategy(before, after)
    &&& tiles_after == tiles_after_layout(before, tiles_before, workspace_bbox)
    &&& same_but_bboxes(tiles_before, tiles_after)
}

/// A second layout pass without an invalidation in between changes nothing: the tiles after
/// the second pass are the tiles after the first.
pub proof fn lemma_layout_twice<L: Layout>(
    initial: L,
    once: L,
    twice: L,
    tiles_initial: Seq<Tile>,
    tiles_once: Seq<Tile>,
    tiles_twice: Seq<Tile>,
    workspace_bbox: BBox,
)
    requires
        laid_out(initial, once, tiles_initial, tiles_once, workspace_bbox),
        laid_out(once, twice, tiles_once, tiles_twice, workspace_bbox),
    ensures
        tiles_twice == tiles_once,
        !twice.dirty(),
{
}

/// Invalidating a layout twice is invalidating it once: it is dirty, and nothing else about
/// it has changed.
pub proof fn lemma_invalidate_twice<L: Layout>(initial: L, once: L, twice: L)
    requires
        invalidated(initial, once),
        invalidated(once, twice),
    ensures
        invalidated(initial, twice),
        twice.dirty() == once.dirty(),
        same_strategy(once, twice),
{
}

/// A layout pass after an invalidation recomputes: if there is a tile, the tiles are placed
/// anew, whatever the layout was before the invalidation.
pub proof fn lemma_layout_after_invalidate<L: Layout>(
    initial: L,
    dirty: L,
    clean: L,
    tiles_before: Seq<Tile>,
    tiles_after: Seq<Tile>,
    workspace_bbox: BBox,
)
    requires
        invalidated(initial, dirty),
        laid_out(dirty, clean, tiles_before, tiles_after, workspace_bbox),
    ensures
        !clean.dirty(),
        tiles_before.len() > 0 ==> tiles_after == initial.placed(tiles_before, workspace_bbox),
        tiles_before.len() == 0 ==> tiles_after == tiles_before,
{
}

/// The layouts that a workspace can hold.
#[derive(Copy, Clone, Debug, Eq, Hash, PartialEq, Structural)]
pub enum LayoutKind {
    /// One tile takes one side of the workspace, the others share the rest.
    Sided(SidedLayout),
    /// A layout that leaves every tile where it is.
    Middle(MiddleLayout),
}

impl LayoutKind {
    /// The side of a sided layout; none for the other layouts.
    pub open spec fn side(self) -> Option<Direction> {
        match self {
            LayoutKind::Sided(layout) => Some(layout.on_side()),
            LayoutKind::Middle(_) => None,
        }
    }
}

impl Layout for LayoutKind {
    open spec fn name(&self) -> Seq<char> {
        match *self {
            LayoutKind::Sided(layout) => layout.name(),
            LayoutKind::Middle(layout) => layout.name(),
        }
    }

    open spec fn dirty(&self) -> bool {
        match *self {
            LayoutKind::Sided(layout) => layout.dirty(),
            LayoutKind::Middle(layout) => layout.dirty(),
        }
    }

    open spec fn placed(&self, tiles: Seq<Tile>, workspace_bbox: BBox) -> Seq<Tile> {
        match *self {
            LayoutKind::Sided(layout) => layout.placed(tiles, workspace_bbox),
            LayoutKind::Middle(layout) => layout.placed(tiles, workspace_bbox),
        }
    }

    fn metadata(&self) -> (meta: LayoutMeta) {
        match self {
            LayoutKind::Sided(layout) => layout.metadata(),
            LayoutKind::Middle(layout) => layout.metadata(),
        }
    }

    fn invalidate(&mut self)
        ensures
            final(self).side() == old(self).side(),
    {
        match self {
            LayoutKind::Sided(layout) => layout.invalidate(),
            LayoutKind::Middle(layout) => layout.invalidate(),
        }
    }

    fn is_dirty(&self) -> (dirty: bool) {
        match self {
            LayoutKind::Sided(layout) => layout.is_dirty(),
            LayoutKind::Middle(layout) => layout.is_dirty(),
        }
    }

    fn layout<'a>(&mut self, update_info: &'a mut LayoutUpdateInfo<'a>)
        ensures
            final(self).side() == old(self).side(),
    {
        match self {
            LayoutKind::Sided(layout) => layout.layout(update_info),
            LayoutKind::Middle(layout) => layout.layout(update_info),
        }
    }
}

} // verus!
