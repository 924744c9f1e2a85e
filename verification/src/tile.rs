//! Tiles are used to move around and resize windows inside a workspace.

use crate::bbox::BBox;
use crate::window::Window;
use vstd::prelude::*;

verus! {

/// The unique id of a tile.
pub type TileId = u32;

/// A tile inside a workspace.
#[derive(Copy, Clone, Debug, Eq, Hash, PartialEq, Structural)]
pub struct Tile {
    /// The unique id of the tile.
    pub id: TileId,
    /// The bounding box of the tile.
    pub bbox: BBox,
    /// The window this tile displays.
    pub window: Window,
}

/// Whether no two of `tiles` share an id.
///
/// Nothing in the crate enforces this: it is up to the caller to hand out ids.
pub open spec fn distinct_ids(tiles: Seq<Tile>) -> bool {
    forall|i: int, j: int|
        0 <= i < j < tiles.len() ==> (#[trigger] tiles[i]).id != (#[trigger] tiles[j]).id
}

impl Default for Tile {
    /// Returns the empty tile: the id is zero, bounding box and window are empty.
    fn default() -> (tile: Self)
        ensures
            tile == Tile::empty(),
    {
        Tile { id: 0, bbox: BBox::default(), window: Window::default() }
    }
}

impl Tile {
    /// The empty tile: the id is zero, bounding box and window are empty.
    pub open spec fn empty() -> Tile {
        Tile { id: 0, bbox: BBox::empty(), window: Window::empty() }
    }

    /// The tile moved to `bbox`: id and window stay as they are.
    pub open spec fn placed_at(self, bbox: BBox) -> Tile {
        Tile { bbox, ..self }
    }

    /// Creates an empty tile.
    pub fn new() -> (tile: Self)
        ensures
            tile == Tile::empty(),
    {
        Self::default()
    }

    /// Creates a tile.
    ///
    /// # Arguments
    ///
    /// - `id`: The id of the tile.
    /// - `bbox`: The bounding box of the tile.
    /// - `window`: The window that the tiles displays.
    ///
    /// # Returns
    ///
    /// A new tile.
    ///
    /// # Note
    ///
    /// `Tile`s do not keep track of already assigned IDs. It's up to the
    /// library user to take care of this.
    pub fn with(id: TileId, bbox: BBox, window: Window) -> (tile: Self)
        ensures
            tile == (Tile { id, bbox, window }),
    {
        Self { id, bbox, window }
    }
}

} // verus!
