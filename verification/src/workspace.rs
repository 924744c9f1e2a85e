//! A workspace keeps the tiles of one display, the tile that has the focus, and the layout
//! that places the tiles.

use crate::display::Display;
use crate::layout::laid_out;
use crate::layout::lemma_same_but_bboxes_keeps_ids;
use crate::layout::sided_layout::SidedLayout;
use crate::layout::Layout;
use crate::layout::LayoutKind;
use crate::layout::LayoutUpdateInfo;
use crate::tile::distinct_ids;
use crate::tile::Tile;
use crate::tile::TileId;
use crate::util::Direction;
use vstd::prelude::*;
use vstd::std_specs::iter::IteratorSpec;

verus! {

/// A workspace id.
pub type WorkspaceId = u32;

/// Whether the tile at position `index` is the first of `tiles` that has the id `id`.
pub open spec fn is_first_with_id(tiles: Seq<Tile>, id: TileId, index: int) -> bool {
    &&& 0 <= index < tiles.len()
    &&& tiles[index].id == id
    &&& forall|before: int| 0 <= before < index ==> (#[trigger] tiles[before]).id != id
}

/// Whether one of `tiles` has the id `id`.
pub open spec fn has_tile(tiles: Seq<Tile>, id: TileId) -> bool {
    exists|index: int| 0 <= index < tiles.len() && (#[trigger] tiles[index]).id == id
}

/// The position of the first of `tiles` that has the id `id`, if there is one.
pub open spec fn position_of(tiles: Seq<Tile>, id: TileId) -> Option<int> {
    if exists|index: int| is_first_with_id(tiles, id, index) {
        Some(choose|index: int| is_first_with_id(tiles, id, index))
    } else {
        None
    }
}

/// Among tiles of which one has the id `id`, one is the first to have it.
pub proof fn lemma_first_with_id(tiles: Seq<Tile>, id: TileId)
    requires
        has_tile(tiles, id),
    ensures
        position_of(tiles, id) is Some,
        is_first_with_id(tiles, id, position_of(tiles, id).unwrap()),
{
    let some = choose|index: int| 0 <= index < tiles.len() && (#[trigger] tiles[index]).id == id;
    lemma_first_up_to(tiles, id, some);
}

/// A tile with the id `id` at position `index` has a first such tile at or before it.
proof fn lemma_first_up_to(tiles: Seq<Tile>, id: TileId, index: int)
    requires
        0 <= index < tiles.len(),
        tiles[index].id == id,
    ensures
        exists|first: int| first <= index && is_first_with_id(tiles, id, first),
    decreases index,
{
    if exists|before: int| 0 <= before < index && (#[trigger] tiles[before]).id == id {
        let before = choose|before: int| 0 <= before < index && (#[trigger] tiles[before]).id == id;
        lemma_first_up_to(tiles, id, before);
    } else {
        assert(is_first_with_id(tiles, id, index));
    }
}

/// What a workspace is made of, with its tiles as a sequence.
pub struct WorkspaceView {
    /// The unique id.
    pub id: WorkspaceId,
    /// The display the workspace is in.
    pub display: Display,
    /// The tiles inside the workspace, in the order in which they were added.
    pub tiles: Seq<Tile>,
    /// The currently active layout.
    pub layout: LayoutKind,
    /// The id of the focused tile, if a tile is focused.
    pub focused_tile_id: Option<TileId>,
}

impl WorkspaceView {
    /// The first tile that has the id `id`, if there is one.
    pub open spec fn tile_by_id(self, id: TileId) -> Option<Tile> {
        match position_of(self.tiles, id) {
            Some(index) => Some(self.tiles[index]),
            None => None,
        }
    }

    /// The first tile that has the id of the focused tile, if a tile is focused and there is
    /// such a tile.
    pub open spec fn focused_tile(self) -> Option<Tile> {
        match self.focused_tile_id {
            Some(id) => self.tile_by_id(id),
            None => None,
        }
    }

    /// Whether the focus is in the workspace: if a tile is focused, one of the tiles has the
    /// focused id.
    pub open spec fn wf(self) -> bool {
        self.focused_tile_id matches Some(id) ==> has_tile(self.tiles, id)
    }

    /// The workspace with `tile` added after the others and focused.
    pub open spec fn with_tile(self, tile: Tile) -> WorkspaceView {
        WorkspaceView { tiles: self.tiles.push(tile), focused_tile_id: Some(tile.id), ..self }
    }

    /// The workspace without the first tile that has the id `id`. No tile is focused afterwards
    /// if that id had the focus; otherwise the focus stays where it is.
    pub open spec fn without_tile(self, id: TileId) -> WorkspaceView
        recommends
            has_tile(self.tiles, id),
    {
        WorkspaceView {
            tiles: self.tiles.remove(position_of(self.tiles, id).unwrap()),
            focused_tile_id: if self.focused_tile_id == Some(id) {
                None
            } else {
                self.focused_tile_id
            },
            ..self
        }
    }

    /// Whether a layout pass leads from the workspace `self` to the workspace `after`: the
    /// layout has worked on the tiles inside the bounding box of the display, and the rest of
    /// the workspace is as it was.
    pub open spec fn laid_out_as(self, after: WorkspaceView) -> bool {
        &&& after.id == self.id
        &&& after.display == self.display
        &&& after.focused_tile_id == self.focused_tile_id
        &&& after.layout.side() == self.layout.side()
        &&& laid_out(self.layout, after.layout, self.tiles, after.tiles, self.display.bbox)
    }
}

/// A second layout pass of a workspace without an invalidation in between changes no tile.
pub proof fn lemma_workspace_layout_twice(
    initial: WorkspaceView,
    once: WorkspaceView,
    twice: WorkspaceView,
)
    requires
        initial.laid_out_as(once),
        once.laid_out_as(twice),
    ensures
        twice.tiles == once.tiles,
        !twice.layout.dirty(),
{
}

/// A layout pass of a workspace without tiles leaves it without tiles, and its layout clean.
pub proof fn lemma_workspace_layout_empty(before: WorkspaceView, after: WorkspaceView)
    requires
        before.tiles.len() == 0,
        before.laid_out_as(after),
    ensures
        after.tiles == before.tiles,
        !after.layout.dirty(),
{
}

/// Removing the tile that has the focus leaves no tile focused. Removing another tile leaves
/// the focus where it was: on the same id, and on the same tile.
pub proof fn lemma_remove_tile_focus(workspace: WorkspaceView, id: TileId)
    requires
        has_tile(workspace.tiles, id),
    ensures
        workspace.focused_tile_id == Some(id) ==> workspace.without_tile(id).focused_tile() is None,
        workspace.focused_tile_id != Some(id) ==> {
            &&& workspace.without_tile(id).focused_tile_id == workspace.focused_tile_id
            &&& workspace.without_tile(id).focused_tile() == workspace.focused_tile()
        },
{
    lemma_first_with_id(workspace.tiles, id);
    let removed = position_of(workspace.tiles, id).unwrap();
    let after = workspace.without_tile(id);
    if let Some(focused) = workspace.focused_tile_id {
        if focused != id {
            // Positions before the removed tile stay, those after it move down by one.
            assert forall|index: int| 0 <= index < after.tiles.len() implies #[trigger] after.tiles[index]
                == workspace.tiles[if index < removed {
                index
            } else {
                index + 1
            }] by {}
            if has_tile(workspace.tiles, focused) {
                lemma_first_with_id(workspace.tiles, focused);
                let first = position_of(workspace.tiles, focused).unwrap();
                let moved = if first < removed {
                    first
                } else {
                    first - 1
                };
                assert(after.tiles[moved] == workspace.tiles[first]);
                assert forall|before: int| 0 <= before < moved implies (#[trigger] after.tiles[before]).id
                    != focused by {
                    let source = if before < removed {
                        before
                    } else {
                        before + 1
                    };
                    assert(after.tiles[before] == workspace.tiles[source]);
                    assert(workspace.tiles[source].id != focused);
                }
                assert(is_first_with_id(after.tiles, focused, moved));
            } else {
                assert forall|index: int| !is_first_with_id(workspace.tiles, focused, index) by {
                    if is_first_with_id(workspace.tiles, focused, index) {
                        assert(workspace.tiles[index].id == focused);
                    }
                }
                assert forall|index: int| !is_first_with_id(after.tiles, focused, index) by {
                    if is_first_with_id(after.tiles, focused, index) {
                        let source = if index < removed {
                            index
                        } else {
                            index + 1
                        };
                        assert(workspace.tiles[source].id == focused);
                    }
                }
            }
        }
    }
}

/// Adding a tile leaves the focus in the workspace: on the new tile.
pub proof fn lemma_with_tile_wf(workspace: WorkspaceView, tile: Tile)
    ensures
        workspace.with_tile(tile).wf(),
        workspace.with_tile(tile).tile_by_id(tile.id) is Some,
{
    let after = workspace.with_tile(tile);
    assert(after.tiles[after.tiles.len() - 1].id == tile.id);
    lemma_first_with_id(after.tiles, tile.id);
}

/// Removing a tile leaves the focus in the workspace, if it was there before.
pub proof fn lemma_without_tile_wf(workspace: WorkspaceView, id: TileId)
    requires
        workspace.wf(),
        has_tile(workspace.tiles, id),
    ensures
        workspace.without_tile(id).wf(),
        workspace.without_tile(id).tiles.len() == workspace.tiles.len() - 1,
{
    lemma_first_with_id(workspace.tiles, id);
    let removed = position_of(workspace.tiles, id).unwrap();
    let after = workspace.without_tile(id);
    if let Some(focused) = after.focused_tile_id {
        let held = choose|index: int|
            0 <= index < workspace.tiles.len() && (#[trigger] workspace.tiles[index]).id == focused;
        let moved = if held < removed {
            held
        } else {
            held - 1
        };
        assert(after.tiles[moved] == workspace.tiles[held]);
    }
}

/// Among tiles with distinct ids, adding a tile with a new id keeps the ids distinct.
pub proof fn lemma_with_tile_distinct(workspace: WorkspaceView, tile: Tile)
    requires
        distinct_ids(workspace.tiles),
        !has_tile(workspace.tiles, tile.id),
    ensures
        distinct_ids(workspace.with_tile(tile).tiles),
{
    let after = workspace.with_tile(tile).tiles;
    assert forall|i: int, j: int| 0 <= i < j < after.len() implies (#[trigger] after[i]).id != (
    #[trigger] after[j]).id by {
        assert(after[i] == workspace.tiles[i]);
        if j < workspace.tiles.len() {
            assert(after[j] == workspace.tiles[j]);
        }
    }
}

/// Among tiles with distinct ids, removing the tile with an id leaves no tile with that id,
/// and keeps the ids distinct.
pub proof fn lemma_without_tile_distinct(workspace: WorkspaceView, id: TileId)
    requires
        distinct_ids(workspace.tiles),
        has_tile(workspace.tiles, id),
    ensures
        distinct_ids(workspace.without_tile(id).tiles),
        !has_tile(workspace.without_tile(id).tiles, id),
        workspace.without_tile(id).tile_by_id(id) is None,
{
    lemma_first_with_id(workspace.tiles, id);
    let removed = position_of(workspace.tiles, id).unwrap();
    let after = workspace.without_tile(id).tiles;
    assert forall|index: int| 0 <= index < after.len() implies #[trigger] after[index]
        == workspace.tiles[if index < removed {
        index
    } else {
        index + 1
    }] by {}
    assert forall|index: int| 0 <= index < after.len() implies (#[trigger] after[index]).id
        != id by {
        let source = if index < removed {
            index
        } else {
            index + 1
        };
        assert(after[index] == workspace.tiles[source]);
        if source < removed {
            assert(workspace.tiles[source].id != workspace.tiles[removed].id);
        } else {
            assert(workspace.tiles[removed].id != workspace.tiles[source].id);
        }
    }
    assert forall|i: int, j: int| 0 <= i < j < after.len() implies (#[trigger] after[i]).id != (
    #[trigger] after[j]).id by {
        let source_i = if i < removed {
            i
        } else {
            i + 1
        };
        let source_j = if j < removed {
            j
        } else {
            j + 1
        };
        assert(after[i] == workspace.tiles[source_i]);
        assert(after[j] == workspace.tiles[source_j]);
        assert(workspace.tiles[source_i].id != workspace.tiles[source_j].id);
    }
    assert forall|index: int| !is_first_with_id(after, id, index) by {
        if is_first_with_id(after, id, index) {
            assert(after[index].id != id);
        }
    }
}

/// A layout pass leaves the focus in the workspace, if it was there before: the tile that
/// holds the focus keeps its id, wherever it is put.
pub proof fn lemma_laid_out_wf(before: WorkspaceView, after: WorkspaceView)
    requires
        before.wf(),
        before.laid_out_as(after),
    ensures
        after.wf(),
{
    if let Some(focused) = before.focused_tile_id {
        let held = choose|index: int|
            0 <= index < before.tiles.len() && (#[trigger] before.tiles[index]).id == focused;
        assert(after.tiles[held].id == focused);
    }
}

/// A workspace keeps track of all tiles and the currently focused tile inside of it.
///
/// Workspaces have one active layout associated with it that is responsible for laying the
/// tiles out.
#[derive(Debug)]
pub struct Workspace {
    /// The unique id.
    pub id: WorkspaceId,
    /// The display the workspace is in.
    pub display: Display,
    /// The tiles inside this workspace.
    pub tiles: Vec<Tile>,
    /// The currently active layout.
    pub layout: LayoutKind,
    /// The id of the focused tile. If `None`, no tile is focused.
    pub focused_tile_id: Option<TileId>,
}

impl View for Workspace {
    type V = WorkspaceView;

    open spec fn view(&self) -> WorkspaceView {
        WorkspaceView {
            id: self.id,
            display: self.display,
            tiles: self.tiles@,
            layout: self.layout,
            focused_tile_id: self.focused_tile_id,
        }
    }
}

impl Clone for Workspace {
    /// Returns a workspace with the same id, display, tiles, layout and focus.
    fn clone(&self) -> (workspace: Self)
        ensures
            workspace@ == self@,
    {
        let mut tiles: Vec<Tile> = Vec::with_capacity(self.tiles.len());
        let mut index: usize = 0;
        while index < self.tiles.len()
            invariant
                index <= self.tiles@.len(),
                tiles@ == self.tiles@.subrange(0, index as int),
            decreases self.tiles@.len() - index,
        {
            tiles.push(self.tiles[index]);
            index += 1;
            assert(tiles@ =~= self.tiles@.subrange(0, index as int));
        }
        assert(tiles@ =~= self.tiles@);
        Workspace {
            id: self.id,
            display: self.display,
            tiles,
            layout: self.layout,
            focused_tile_id: self.focused_tile_id,
        }
    }
}

impl Default for Workspace {
    /// Returns a default instance.
    ///
    /// The default value for the `layout` field is an instance of `SidedLayout`.
    fn default() -> (workspace: Self)
        ensures
            workspace@.is_fresh(0, Display::empty()),
    {
        Self {
            id: 0,
            display: Display::default(),
            tiles: Vec::new(),
            layout: LayoutKind::Sided(SidedLayout::new()),
            focused_tile_id: None,
        }
    }
}

impl WorkspaceView {
    /// Whether the workspace is as it is created: with the given id and display, without
    /// tiles or focus, and with a dirty sided layout on the left side.
    pub open spec fn is_fresh(self, id: WorkspaceId, display: Display) -> bool {
        &&& self.id == id
        &&& self.display == display
        &&& self.tiles == Seq::<Tile>::empty()
        &&& self.focused_tile_id is None
        &&& self.layout is Sided
        &&& self.layout.dirty()
        &&& self.layout.side() == Some(Direction::Left)
        &&& self.wf()
    }
}

impl Workspace {
    /// Creates a new default `Workspace`.
    pub fn new() -> (workspace: Self)
        ensures
            workspace@.is_fresh(0, Display::empty()),
    {
        Self::default()
    }

    /// Creates a workspace.
    ///
    /// # Arguments
    ///
    /// - `id`: The id of the workspace.
    /// - `display`: The display that the workspace resides in.
    pub fn with(id: WorkspaceId, display: Display) -> (workspace: Self)
        ensures
            workspace@.is_fresh(id, display),
    {
        Self {
            id,
            display,
            tiles: Vec::new(),
            layout: LayoutKind::Sided(SidedLayout::new()),
            focused_tile_id: None,
        }
    }

    /// Lays out all the tiles inside the workspace.
    pub fn layout(&mut self)
        ensures
            old(self)@.laid_out_as(final(self)@),
            old(self)@.wf() ==> final(self)@.wf(),
            distinct_ids(old(self)@.tiles) ==> distinct_ids(final(self)@.tiles),
    {
        let mut update_info = LayoutUpdateInfo {
            tiles: &mut self.tiles,
            workspace_bbox: self.display.bbox,
        };
        self.layout.layout(&mut update_info);
        proof {
            if old(self)@.wf() {
                lemma_laid_out_wf(old(self)@, self@);
            }
            lemma_same_but_bboxes_keeps_ids(old(self)@.tiles, self@.tiles);
        }
    }

    /// Adds a new tile to the workspace and focuses it.
    ///
    /// # Note
    ///
    /// This method does __NOT__ check if a `Tile` with the same id is already inside the workspace. ID management is up to the caller.
    pub fn add_tile(&mut self, tile: Tile)
        ensures
            final(self)@ == old(self)@.with_tile(tile),
            final(self)@.wf(),
            distinct_ids(old(self)@.tiles) && !has_tile(old(self)@.tiles, tile.id) ==> distinct_ids(
                final(self)@.tiles,
            ),
    {
        self.focused_tile_id = Some(tile.id);
        self.tiles.push(tile);
        proof {
            lemma_with_tile_wf(old(self)@, tile);
            if distinct_ids(old(self)@.tiles) && !has_tile(old(self)@.tiles, tile.id) {
                lemma_with_tile_distinct(old(self)@, tile);
            }
        }
    }

    /// Removes a tile from the workspace.
    ///
    /// If the `Tile` was focused, the `focused_tile_id` is set to `None`.
    pub fn remove_tile(&mut self, tile: &Tile)
        requires
            has_tile(old(self)@.tiles, tile.id),
        ensures
            final(self)@ == old(self)@.without_tile(tile.id),
            old(self)@.wf() ==> final(self)@.wf(),
            distinct_ids(old(self)@.tiles) ==> distinct_ids(final(self)@.tiles) && !has_tile(
                final(self)@.tiles,
                tile.id,
            ),
    {
        self.remove_tile_by_id(tile.id);
    }

    /// Removes a tile with a given id from the workspace: the first tile that has it.
    ///
    /// If the `Tile` was focused, the `focused_tile_id` is set to `None`.
    pub fn remove_tile_by_id(&mut self, tile_id: TileId)
        requires
            has_tile(old(self)@.tiles, tile_id),
        ensures
            final(self)@ == old(self)@.without_tile(tile_id),
            old(self)@.wf() ==> final(self)@.wf(),
            distinct_ids(old(self)@.tiles) ==> distinct_ids(final(self)@.tiles) && !has_tile(
                final(self)@.tiles,
                tile_id,
            ),
    {
        proof {
            if old(self)@.wf() {
                lemma_without_tile_wf(old(self)@, tile_id);
            }
            if distinct_ids(old(self)@.tiles) {
                lemma_without_tile_distinct(old(self)@, tile_id);
            }
        }
        if self.focused_tile_id == Some(tile_id) {
            self.focused_tile_id = None;
        }
        let found = self.position(tile_id);
        match found {
            Some(index) => {
                self.tiles.remove(index);
            },
            None => {},
        }
    }

    /// Returns the position of the first tile that has the id `id`, if there is one.
    fn position(&self, id: TileId) -> (found: Option<usize>)
        ensures
            match found {
                Some(index) => position_of(self.tiles@, id) == Some(index as int),
                None => position_of(self.tiles@, id) is None,
            },
            found is Some <==> has_tile(self.tiles@, id),
            found matches Some(index) ==> is_first_with_id(self.tiles@, id, index as int),
    {
        let mut index: usize = 0;
        while index < self.tiles.len()
            invariant
                index <= self.tiles@.len(),
                forall|before: int| 0 <= before < index ==> (#[trigger] self.tiles@[before]).id != id,
            decreases self.tiles@.len() - index,
        {
            if self.tiles[index].id == id {
                assert(is_first_with_id(self.tiles@, id, index as int));
                return Some(index);
            }
            index += 1;
        }
        None
    }

    /// Returns a reference of all tiles inside the workspace.
    pub fn tiles(&self) -> (tiles: &Vec<Tile>)
        ensures
            tiles@ == self@.tiles,
    {
        &self.tiles
    }

    /// Returns a reference of all tiles inside the workspace, which stays as it is.
    pub fn tiles_mut(&mut self) -> (tiles: &Vec<Tile>)
        ensures
            tiles@ == old(self)@.tiles,
            final(self)@ == old(self)@,
    {
        &self.tiles
    }

    /// Returns a reference of the focused tile.
    ///
    /// # Returns
    ///
    /// `Some(&Tile)` if a tile is focused, `None` otherwise.
    pub fn focused_tile(&self) -> (tile: Option<&Tile>)
        ensures
            match tile {
                Some(tile) => self@.focused_tile() == Some(*tile),
                None => self@.focused_tile() is None,
            },
    {
        match self.focused_tile_id {
            Some(id) => self.tile_by_id(id),
            None => None,
        }
    }

    /// Returns a mutable reference of the focused tile.
    ///
    /// # Returns
    ///
    /// `Some(&mut Tile)` if a tile is focused, `None` otherwise.
    pub fn focused_tile_mut(&mut self) -> (tile: Option<&mut Tile>)
        ensures
            match tile {
                Some(tile) => {
                    &&& old(self)@.focused_tile() == Some(*tile)
                    &&& final(self)@ == (WorkspaceView {
                        tiles: old(self)@.tiles.update(
                            position_of(old(self)@.tiles, old(self)@.focused_tile_id.unwrap()).unwrap(),
                            *final(tile),
                        ),
                        ..old(self)@
                    })
                },
                None => old(self)@.focused_tile() is None && final(self)@ == old(self)@,
            },
    {
        match self.focused_tile_id {
            Some(id) => self.tile_by_id_mut(id),
            None => None,
        }
    }

    /// Returns a reference to a tile given by its id.
    ///
    /// # Arguments
    ///
    /// - `id`: The id of the tile.
    ///
    /// # Returns
    ///
    /// `Some(&Tile)` if the tile exists, `None` otherwise.
    pub fn tile_by_id(&self, id: TileId) -> (tile: Option<&Tile>)
        ensures
            match tile {
                Some(tile) => self@.tile_by_id(id) == Some(*tile),
                None => self@.tile_by_id(id) is None,
            },
            tile is Some <==> has_tile(self@.tiles, id),
    {
        match self.position(id) {
            Some(index) => Some(&self.tiles[index]),
            None => None,
        }
    }

    /// Returns a mutable reference to a tile given by its id.
    ///
    /// # Arguments
    ///
    /// - `id`: The id of the tile.
    ///
    /// # Returns
    ///
    /// `Some(&mut Tile)` if the tile exists, `None` otherwise.
    pub fn tile_by_id_mut(&mut self, id: TileId) -> (tile: Option<&mut Tile>)
        ensures
            match tile {
                Some(tile) => {
                    &&& old(self)@.tile_by_id(id) == Some(*tile)
                    &&& final(self)@ == (WorkspaceView {
                        tiles: old(self)@.tiles.update(
                            position_of(old(self)@.tiles, id).unwrap(),
                            *final(tile),
                        ),
                        ..old(self)@
                    })
                },
                None => old(self)@.tile_by_id(id) is None && final(self)@ == old(self)@,
            },
    {
        match self.position(id) {
            Some(index) => Some(&mut self.tiles[index]),
            None => None,
        }
    }

    /// Returns an `Iterator` over all tiles inside this workspace, first to last.
    pub fn iter(&self) -> (iter: std::slice::Iter<'_, Tile>)
        ensures
            iter.remaining() == self@.tiles.as_ref(),
            IteratorSpec::decrease(&iter) is Some,
            IteratorSpec::initial_value_relation(&iter, &iter),
    {
        self.tiles.iter()
    }
}

impl IntoIterator for Workspace {
    type Item = Tile;

    type IntoIter = std::vec::IntoIter<Tile>;

    /// Returns an `Iterator` that hands out the tiles of the workspace, first to last.
    fn into_iter(self) -> (iter: std::vec::IntoIter<Tile>)
        ensures
            iter.remaining() == self@.tiles,
            IteratorSpec::decrease(&iter) is Some,
            IteratorSpec::initial_value_relation(&iter, &iter),
    {
        self.tiles.into_iter()
    }
}

} // verus!
