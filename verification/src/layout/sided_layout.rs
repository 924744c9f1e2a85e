//! A sided layout uses half of the workspace's bounding box for one tile, the one with the
//! highest id. The rest of the space is evenly shared between the rest of the tiles.

use crate::bbox::BBox;
use crate::bbox::SplitDirection;
use crate::layout::Layout;
use crate::layout::LayoutMeta;
use crate::layout::LayoutUpdateInfo;
use crate::tile::distinct_ids;
use crate::tile::Tile;
use crate::tile::TileId;
use crate::util::Direction;
use vstd::prelude::*;

verus! {

/// A `SidedBBox` splits a bounding box into two parts, the `sided` part, which is taken by the
/// tile with the highest id, and the `rest` part, that is shared between the rest of the tiles.
#[derive(Copy, Clone, Debug, Eq, Hash, PartialEq, Structural)]
pub struct SidedBBox(pub BBox, pub BBox);

impl SidedBBox {
    /// Returns the `sided` bounding box.
    pub fn sided(&self) -> (sided: BBox)
        ensures
            sided == self.0,
    {
        self.0
    }

    /// Returns the `rest` bounding box.
    pub fn rest(&self) -> (rest: BBox)
        ensures
            rest == self.1,
    {
        self.1
    }
}

/// The two regions of `boundary` for a layout on `side`: the half on that side, and the
/// other half.
pub open spec fn sided_regions(side: Direction, boundary: BBox) -> SidedBBox {
    match side {
        Direction::Left => {
            let (left, right) = boundary.halves(SplitDirection::Vertical);
            SidedBBox(left, right)
        },
        Direction::Right => {
            let (left, right) = boundary.halves(SplitDirection::Vertical);
            SidedBBox(right, left)
        },
        Direction::Up => {
            let (upper, lower) = boundary.halves(SplitDirection::Horizontal);
            SidedBBox(upper, lower)
        },
        Direction::Down => {
            let (upper, lower) = boundary.halves(SplitDirection::Horizontal);
            SidedBBox(lower, upper)
        },
    }
}

/// The direction in which the `rest` region is split up: across the direction that cut the
/// workspace in two.
pub open spec fn rest_direction(side: Direction) -> SplitDirection {
    match side {
        Direction::Left | Direction::Right => SplitDirection::Horizontal,
        Direction::Up | Direction::Down => SplitDirection::Vertical,
    }
}

/// The highest id among `tiles`; zero if there is no tile.
pub open spec fn highest_id(tiles: Seq<Tile>) -> TileId
    decreases tiles.len(),
{
    if tiles.len() == 0 {
        0
    } else {
        let before = highest_id(tiles.drop_last());
        if tiles.last().id >= before {
            tiles.last().id
        } else {
            before
        }
    }
}

/// The number of tiles before position `index` that do not have the id `sided_id`: the
/// part of the `rest` region that the tile at `index` gets, if it is no sided tile.
pub open spec fn rest_slot(tiles: Seq<Tile>, sided_id: TileId, index: int) -> int
    decreases index,
{
    if index <= 0 {
        0
    } else if tiles[index - 1].id != sided_id {
        rest_slot(tiles, sided_id, index - 1) + 1
    } else {
        rest_slot(tiles, sided_id, index - 1)
    }
}

/// The bounding box that a sided layout on `side` gives to the tile at position `index`.
///
/// A tile with the highest id gets the sided region. The others share the rest region
/// equally, as if one tile were sided, in the order in which they stand.
pub open spec fn sided_bbox_at(
    side: Direction,
    tiles: Seq<Tile>,
    workspace_bbox: BBox,
    index: int,
) -> BBox {
    let regions = sided_regions(side, workspace_bbox);
    let sided_id = highest_id(tiles);
    if tiles[index].id == sided_id {
        regions.0
    } else {
        BBox::equal_part(
            regions.1,
            tiles.len() - 1,
            rest_direction(side),
            rest_slot(tiles, sided_id, index),
        )
    }
}

/// The tiles as a sided layout on `side` places them inside `workspace_bbox`.
pub open spec fn sided_placement(side: Direction, tiles: Seq<Tile>, workspace_bbox: BBox) -> Seq<
    Tile,
> {
    Seq::new(
        tiles.len(),
        |index: int| tiles[index].placed_at(sided_bbox_at(side, tiles, workspace_bbox, index)),
    )
}

/// The highest id is the id of one of the tiles, and no tile has a higher one.
pub proof fn lemma_highest_id(tiles: Seq<Tile>)
    requires
        tiles.len() > 0,
    ensures
        exists|i: int| 0 <= i < tiles.len() && #[trigger] tiles[i].id == highest_id(tiles),
        forall|i: int| 0 <= i < tiles.len() ==> (#[trigger] tiles[i]).id <= highest_id(tiles),
    decreases tiles.len(),
{
    let before = tiles.drop_last();
    if before.len() > 0 {
        lemma_highest_id(before);
        let witness = choose|i: int| 0 <= i < before.len() && #[trigger] before[i].id == highest_id(
            before,
        );
        assert(tiles[witness] == before[witness]);
        assert forall|i: int| 0 <= i < tiles.len() implies (#[trigger] tiles[i]).id <= highest_id(
            tiles,
        ) by {
            if i < before.len() {
                assert(tiles[i] == before[i]);
            }
        }
        if tiles.last().id >= highest_id(before) {
            assert(tiles[tiles.len() - 1].id == highest_id(tiles));
        } else {
            assert(tiles[witness].id == highest_id(tiles));
        }
    } else {
        assert(highest_id(before) == 0);
        assert(tiles[0].id == highest_id(tiles));
    }
}

/// The slots of the rest region are handed out in order and without gaps: a slot is never
/// negative and never beyond the position, and where a sided tile stands at or after
/// `index`, or before it, fewer slots than there are other tiles have been used.
pub proof fn lemma_rest_slot_bounds(tiles: Seq<Tile>, sided_id: TileId, index: int)
    requires
        0 <= index <= tiles.len(),
    ensures
        0 <= rest_slot(tiles, sided_id, index) <= index,
        (exists|i: int| 0 <= i < index && #[trigger] tiles[i].id == sided_id) ==> rest_slot(
            tiles,
            sided_id,
            index,
        ) < index,
    decreases index,
{
    if index > 0 {
        lemma_rest_slot_bounds(tiles, sided_id, index - 1);
        if exists|i: int| 0 <= i < index && #[trigger] tiles[i].id == sided_id {
            let witness = choose|i: int| 0 <= i < index && #[trigger] tiles[i].id == sided_id;
            if witness < index - 1 {
                assert(tiles[witness].id == sided_id);
            }
        }
    }
}

/// Where no two tiles share an id, one tile is sided, and the others take the parts of the
/// rest region in the order in which they stand: a tile before the sided tile takes the part
/// of its own position, a tile after it the part before that.
pub proof fn lemma_rest_slot_skips_sided(tiles: Seq<Tile>, sided: int, index: int)
    requires
        distinct_ids(tiles),
        0 <= sided < tiles.len(),
        tiles[sided].id == highest_id(tiles),
        0 <= index <= tiles.len(),
    ensures
        rest_slot(tiles, highest_id(tiles), index) == (if index <= sided {
            index
        } else {
            index - 1
        }),
    decreases index,
{
    if index > 0 {
        lemma_rest_slot_skips_sided(tiles, sided, index - 1);
        if index - 1 != sided {
            if index - 1 < sided {
                assert(tiles[index - 1].id != tiles[sided].id);
            } else {
                assert(tiles[sided].id != tiles[index - 1].id);
            }
        }
    }
}

/// Returns the highest id among the tiles.
fn highest_tile_id(tiles: &Vec<Tile>) -> (id: TileId)
    requires
        tiles@.len() > 0,
    ensures
        id == highest_id(tiles@),
{
    let mut id: TileId = tiles[0].id;
    let mut index: usize = 1;
    assert(tiles@.subrange(0, 1).drop_last() =~= Seq::<Tile>::empty());
    assert(highest_id(tiles@.subrange(0, 1)) == tiles@[0].id) by {
        reveal_with_fuel(highest_id, 2);
    }
    while index < tiles.len()
        invariant
            1 <= index <= tiles@.len(),
            id == highest_id(tiles@.subrange(0, index as int)),
        decreases tiles@.len() - index,
    {
        assert(tiles@.subrange(0, index + 1).drop_last() =~= tiles@.subrange(0, index as int));
        if tiles[index].id >= id {
            id = tiles[index].id;
        }
        index += 1;
    }
    assert(tiles@.subrange(0, index as int) =~= tiles@);
    id
}

/// A sided layout implementation.
#[derive(Copy, Clone, Debug, Eq, Hash, PartialEq, Structural)]
pub struct SidedLayout {
    /// Whether the layout is dirty or not.
    dirty: bool,
    /// The side that the tile with the highest id is rendered to.
    pub side: Direction,
}

impl Default for SidedLayout {
    /// Returns a dirty layout on the left side.
    fn default() -> (layout: Self)
        ensures
            layout.dirty(),
            layout.on_side() == Direction::Left,
    {
        SidedLayout { dirty: true, side: Direction::Left }
    }
}

impl SidedLayout {
    /// The side that the tile with the highest id is rendered to.
    pub closed spec fn on_side(&self) -> Direction {
        self.side
    }

    /// Creates a default `SidedLayout`: dirty, on the left side.
    pub fn new() -> (layout: Self)
        ensures
            layout.dirty(),
            layout.on_side() == Direction::Left,
    {
        Self::default()
    }

    /// Creates a `SidedLayout`, which starts dirty.
    ///
    /// # Arguments
    ///
    /// - `side`: The side on which the tile with the highest id is rendered to.
    pub fn with(side: Direction) -> (layout: Self)
        ensures
            layout.dirty(),
            layout.on_side() == side,
    {
        Self { dirty: true, side }
    }

    /// Returns the bounding boxes depending on which side the sided tile is rendered to.
    fn bbox_for_side(self, boundary: BBox) -> (regions: SidedBBox)
        ensures
            regions == sided_regions(self.side, boundary),
    {
        match self.side {
            Direction::Left => {
                let splitted = boundary.vertical_split();
                SidedBBox(splitted.left(), splitted.right())
            },
            Direction::Right => {
                let splitted = boundary.vertical_split();
                SidedBBox(splitted.right(), splitted.left())
            },
            Direction::Up => {
                let splitted = boundary.horizontal_split();
                SidedBBox(splitted.upper(), splitted.lower())
            },
            Direction::Down => {
                let splitted = boundary.horizontal_split();
                SidedBBox(splitted.lower(), splitted.upper())
            },
        }
    }

    /// Returns the split direction used for splitting up the `rest` of the bounding box.
    ///
    /// # Returns
    ///
    /// For directions `Left` and `Right`, this function returns `SplitDirection::Horizontal`.
    /// For directions `Up` and `Down`, this function returns `SplitDirection::Vertical`.
    fn split_direction(self) -> (direction: SplitDirection)
        ensures
            direction == rest_direction(self.side),
    {
        match self.side {
            Direction::Left | Direction::Right => SplitDirection::Horizontal,
            Direction::Up | Direction::Down => SplitDirection::Vertical,
        }
    }

    /// The logic behind sided layout.
    fn layout0<'a>(&mut self, update_info: &'a mut LayoutUpdateInfo<'a>)
        requires
            old(update_info).tiles@.len() > 0,
        ensures
            *final(self) == *old(self),
            final(update_info).workspace_bbox == old(update_info).workspace_bbox,
            *final(final(update_info).tiles) == *final(old(update_info).tiles),
            final(update_info).tiles@ == sided_placement(
                old(self).side,
                old(update_info).tiles@,
                old(update_info).workspace_bbox,
            ),
    {
        let display_ = update_info.workspace_bbox;
        let ghost unplaced = update_info.tiles@;

        // Create bounding boxes for the sided tile and the rest of the tiles.
        let sided_box = self.bbox_for_side(display_);
        let (side_bbox, rest_bbox) = (sided_box.sided(), sided_box.rest());

        // Calculate the number of remaining tiles.
        let number_of_tiles = update_info.tiles.len();
        let number_of_non_sided_bboxes = number_of_tiles - 1;
        let child_bboxes = BBox::equal_split(
            rest_bbox,
            number_of_non_sided_bboxes,
            self.split_direction(),
        );

        // Find the newest tile.
        let max_id_tile_id = highest_tile_id(update_info.tiles);
        proof {
            lemma_highest_id(unplaced);
        }

        let mut next_child: usize = 0;
        let mut index: usize = 0;
        while index < number_of_tiles
            invariant
                index <= number_of_tiles,
                number_of_tiles == unplaced.len(),
                number_of_non_sided_bboxes == number_of_tiles - 1,
                update_info.tiles@.len() == unplaced.len(),
                update_info.workspace_bbox == display_,
                *final(update_info.tiles) == *final(old(update_info).tiles),
                max_id_tile_id == highest_id(unplaced),
                exists|i: int| 0 <= i < unplaced.len() && #[trigger] unplaced[i].id == max_id_tile_id,
                next_child == rest_slot(unplaced, max_id_tile_id, index as int),
                child_bboxes@ == BBox::equal_parts(
                    rest_bbox,
                    number_of_non_sided_bboxes as nat,
                    rest_direction(self.side),
                ),
                sided_box == sided_regions(self.side, display_),
                side_bbox == sided_box.0,
                rest_bbox == sided_box.1,
                forall|i: int|
                    0 <= i < index ==> #[trigger] update_info.tiles@[i] == unplaced[i].placed_at(
                        sided_bbox_at(self.side, unplaced, display_, i),
                    ),
                forall|i: int|
                    index <= i < unplaced.len() ==> #[trigger] update_info.tiles@[i] == unplaced[i],
            decreases number_of_tiles - index,
        {
            proof {
                lemma_rest_slot_bounds(unplaced, max_id_tile_id, index as int);
                lemma_rest_slot_bounds(unplaced, max_id_tile_id, index as int + 1);
            }
            if update_info.tiles[index].id == max_id_tile_id {
                update_info.tiles[index].bbox = side_bbox;
            } else {
                update_info.tiles[index].bbox = child_bboxes[next_child];
                next_child += 1;
            }
            index += 1;
        }
        assert(update_info.tiles@ =~= sided_placement(self.side, unplaced, display_));
    }
}

impl Layout for SidedLayout {
    open spec fn name(&self) -> Seq<char> {
        "Sided Layout"@
    }

    closed spec fn dirty(&self) -> bool {
        self.dirty
    }

    open spec fn placed(&self, tiles: Seq<Tile>, workspace_bbox: BBox) -> Seq<Tile> {
        sided_placement(self.on_side(), tiles, workspace_bbox)
    }

    fn metadata(&self) -> (meta: LayoutMeta) {
        LayoutMeta { name: "Sided Layout".to_string() }
    }

    fn invalidate(&mut self)
        ensures
            final(self).on_side() == old(self).on_side(),
    {
        self.dirty = true;
    }

    fn is_dirty(&self) -> (dirty: bool) {
        self.dirty
    }

    fn layout<'a>(&mut self, update_info: &'a mut LayoutUpdateInfo<'a>)
        ensures
            final(self).on_side() == old(self).on_side(),
    {
        if self.is_dirty() {
            if update_info.tiles.is_empty() {
                self.dirty = false;
                return ;
            }
            self.layout0(update_info);
            self.dirty = false;
        }
    }
}

} // verus!
