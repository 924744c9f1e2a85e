//! Bounding boxes hold the position and size of windows inside the tiling window manager.
//!
//! All divisions round towards negative infinity, and every split hands the pixels that a
//! division leaves over to the last part. Positions are computed in wrapping `i32` arithmetic:
//! [`wrap_i32`] is the identity wherever the exact value fits.

use vstd::arithmetic::div_mod::lemma_basic_div;
use vstd::arithmetic::div_mod::lemma_fundamental_div_mod;
use vstd::arithmetic::div_mod::lemma_fundamental_div_mod_converse;
use vstd::arithmetic::div_mod::lemma_mod_bound;
use vstd::prelude::*;

verus! {

/// The `i32` that is congruent to `v` modulo 2^32: what wrapping `i32` arithmetic makes of the
/// exact value `v`.
pub open spec fn wrap_i32(v: int) -> i32 {
    let m = v % 0x1_0000_0000;
    if m >= 0x8000_0000 {
        (m - 0x1_0000_0000) as i32
    } else {
        m as i32
    }
}

/// A value that fits into an `i32` is left alone by [`wrap_i32`].
pub proof fn lemma_wrap_i32_fits(v: int)
    requires
        i32::MIN <= v <= i32::MAX,
    ensures
        wrap_i32(v) == v,
{
}

/// Adding to a wrapped value in wrapping arithmetic wraps the exact sum.
proof fn lemma_wrapping_add_left(a: int, b: i32)
    ensures
        wrap_i32(a).wrapping_add(b) == wrap_i32(a + b),
{
}

/// Adding a wrapped value in wrapping arithmetic wraps the exact sum.
proof fn lemma_wrapping_add_right(a: i32, b: int)
    ensures
        a.wrapping_add(wrap_i32(b)) == wrap_i32(a + b),
{
}

/// Subtracting a wrapped value in wrapping arithmetic wraps the exact difference.
proof fn lemma_wrapping_sub_right(a: i32, b: int)
    ensures
        a.wrapping_sub(wrap_i32(b)) == wrap_i32(a - b),
{
}

/// The direction a split can occur.
#[derive(Copy, Clone, Debug, Eq, Hash, PartialEq, Structural)]
pub enum SplitDirection {
    /// A horizontal split splits a bounding box into an `upper` and `lower` part.
    Horizontal,
    /// A vertical split splits a bounding box into a `left` and `right` part.
    Vertical,
}

impl Default for SplitDirection {
    /// Returns the default split direction (Horizontal).
    fn default() -> (direction: Self)
        ensures
            direction == SplitDirection::Horizontal,
    {
        SplitDirection::Horizontal
    }
}

/// A bounding box: an axis-aligned rectangle in pixel space.
///
/// Width and height are conventionally non-negative, but nothing enforces it.
#[derive(Copy, Clone, Debug, Eq, Hash, PartialEq, Structural)]
pub struct BBox {
    /// The x-position of the bounding box.
    pub x: i32,
    /// The y-position of the bounding box.
    pub y: i32,
    /// The width of the bounding box.
    pub width: i32,
    /// The height of the bounding box.
    pub height: i32,
}

/// The result of an horizontal split.
///
/// Splitting a bounding box horizontally results in two new bounding boxes: an upper one and a
/// lower one.
#[derive(Copy, Clone, Debug, Eq, Hash, PartialEq, Structural)]
pub struct HorizontalSplit(pub BBox, pub BBox);

/// The result of an vertical split.
///
/// Splitting a bounding box vertically results in two new bounding boxes: a left one and a
/// right one.
#[derive(Copy, Clone, Debug, Eq, Hash, PartialEq, Structural)]
pub struct VerticalSplit(pub BBox, pub BBox);

impl Default for BBox {
    /// Returns the empty bounding box: all four values are zero.
    fn default() -> (bbox: Self)
        ensures
            bbox == BBox::empty(),
    {
        BBox { x: 0, y: 0, width: 0, height: 0 }
    }
}

impl Default for HorizontalSplit {
    /// Returns the split that holds two empty bounding boxes.
    fn default() -> (split: Self)
        ensures
            split == HorizontalSplit(BBox::empty(), BBox::empty()),
    {
        HorizontalSplit(BBox::default(), BBox::default())
    }
}

impl Default for VerticalSplit {
    /// Returns the split that holds two empty bounding boxes.
    fn default() -> (split: Self)
        ensures
            split == VerticalSplit(BBox::empty(), BBox::empty()),
    {
        VerticalSplit(BBox::default(), BBox::default())
    }
}

impl HorizontalSplit {
    /// Creates an empty `HorizontalSplit`.
    pub fn new() -> (split: Self)
        ensures
            split == HorizontalSplit(BBox::empty(), BBox::empty()),
    {
        Self::default()
    }

    /// Creates a `HorizontalSplit` holding the given `upper` and `lower` bounding boxes.
    pub fn with(upper: BBox, lower: BBox) -> (split: Self)
        ensures
            split == HorizontalSplit(upper, lower),
    {
        Self(upper, lower)
    }

    /// Returns the upper bounding box.
    pub fn upper(&self) -> (upper: BBox)
        ensures
            upper == self.0,
    {
        self.0
    }

    /// Returns the lower bounding box.
    pub fn lower(&self) -> (lower: BBox)
        ensures
            lower == self.1,
    {
        self.1
    }
}

impl VerticalSplit {
    /// Creates an empty vertical split.
    pub fn new() -> (split: Self)
        ensures
            split == VerticalSplit(BBox::empty(), BBox::empty()),
    {
        Self::default()
    }

    /// Creates a `VerticalSplit` holding the given `left` and `right` bounding boxes.
    pub fn with(left: BBox, right: BBox) -> (split: Self)
        ensures
            split == VerticalSplit(left, right),
    {
        Self(left, right)
    }

    /// Returns the left bounding box.
    pub fn left(&self) -> (left: BBox)
        ensures
            left == self.0,
    {
        self.0
    }

    /// Returns the right bounding box.
    pub fn right(&self) -> (right: BBox)
        ensures
            right == self.1,
    {
        self.1
    }
}

/// Divides `value` by `parts`, rounding towards negative infinity.
fn floor_div(value: i32, parts: usize) -> (quotient: i32)
    requires
        parts > 0,
    ensures
        quotient == value as int / parts as int,
{
    if value >= 0 {
        if parts > i32::MAX as usize {
            proof {
                lemma_basic_div(value as int, parts as int);
            }
            0
        } else {
            value / (parts as i32)
        }
    } else {
        let mirrored: i32 = -(value + 1);
        let mirrored_quotient: i32 = if parts > i32::MAX as usize {
            proof {
                lemma_basic_div(mirrored as int, parts as int);
            }
            0
        } else {
            mirrored / (parts as i32)
        };
        proof {
            let d = parts as int;
            let m = mirrored as int;
            let q = mirrored_quotient as int;
            let r = m % d;
            lemma_fundamental_div_mod(m, d);
            lemma_mod_bound(m, d);
            assert((-q - 1) * d + (d - 1 - r) == value) by (nonlinear_arith)
                requires
                    m == d * q + r,
                    value == -m - 1,
            ;
            lemma_fundamental_div_mod_converse(value as int, d, -q - 1, d - 1 - r);
        }
        -mirrored_quotient - 1
    }
}

impl BBox {
    /// The empty bounding box: all four values are zero.
    pub open spec fn empty() -> BBox {
        BBox { x: 0, y: 0, width: 0, height: 0 }
    }

    /// The position of the bounding box along the axis that a split in `direction` cuts:
    /// `y` for a horizontal split, `x` for a vertical one.
    pub open spec fn start_along(self, direction: SplitDirection) -> i32 {
        match direction {
            SplitDirection::Horizontal => self.y,
            SplitDirection::Vertical => self.x,
        }
    }

    /// The size of the bounding box along the axis that a split in `direction` cuts:
    /// `height` for a horizontal split, `width` for a vertical one.
    pub open spec fn extent_along(self, direction: SplitDirection) -> i32 {
        match direction {
            SplitDirection::Horizontal => self.height,
            SplitDirection::Vertical => self.width,
        }
    }

    /// The bounding box with its position and size along the axis of `direction` replaced.
    pub open spec fn with_span(self, direction: SplitDirection, start: i32, extent: i32) -> BBox {
        match direction {
            SplitDirection::Horizontal => BBox { y: start, height: extent, ..self },
            SplitDirection::Vertical => BBox { x: start, width: extent, ..self },
        }
    }

    /// The two parts that cutting the bounding box in halves along `direction` yields.
    ///
    /// The first part starts where the box starts and takes half of its size, rounded down;
    /// the second part follows it and takes what is left.
    pub open spec fn halves(self, direction: SplitDirection) -> (BBox, BBox) {
        let start = self.start_along(direction);
        let extent = self.extent_along(direction);
        let first = extent as int / 2;
        (
            self.with_span(direction, start, first as i32),
            self.with_span(direction, wrap_i32(start + first), (extent - first) as i32),
        )
    }

    /// The upper and the lower half of the bounding box.
    pub open spec fn horizontal_halves(self) -> HorizontalSplit {
        let (upper, lower) = self.halves(SplitDirection::Horizontal);
        HorizontalSplit(upper, lower)
    }

    /// The left and the right half of the bounding box.
    pub open spec fn vertical_halves(self) -> VerticalSplit {
        let (left, right) = self.halves(SplitDirection::Vertical);
        VerticalSplit(left, right)
    }

    /// The part with the given `index` of the `parts` parts that an equal split of `root` yields.
    ///
    /// Every part but the last has the size of `root` divided by `parts`, rounded down, and
    /// part `index` starts `index` such sizes after the start of `root`. The last part takes
    /// what the others leave.
    pub open spec fn equal_part(
        root: BBox,
        parts: int,
        direction: SplitDirection,
        index: int,
    ) -> BBox {
        let start = root.start_along(direction);
        let extent = root.extent_along(direction);
        let per_part = extent as int / parts;
        root.with_span(
            direction,
            wrap_i32(start + index * per_part),
            if index == parts - 1 {
                wrap_i32(extent - index * per_part)
            } else {
                per_part as i32
            },
        )
    }

    /// The parts that an equal split of `root` yields, first to last.
    pub open spec fn equal_parts(root: BBox, parts: nat, direction: SplitDirection) -> Seq<BBox> {
        Seq::new(parts, |index: int| Self::equal_part(root, parts as int, direction, index))
    }

    /// Creates an empty bounding box.
    pub fn new() -> (bbox: Self)
        ensures
            bbox == BBox::empty(),
    {
        Self::default()
    }

    /// Creates a new bounding box with specific values.
    ///
    /// # Arguments
    ///
    /// - `x`: The x-position of the bounding box.
    /// - `y`: The y-position of the bounding box.
    /// - `width`: The width of the bounding box.
    /// - `height`: The height of the bounding box.
    pub fn with(x: i32, y: i32, width: i32, height: i32) -> (bbox: Self)
        ensures
            bbox == (BBox { x, y, width, height }),
    {
        Self { x, y, width, height }
    }

    /// Equally splits the surface area of a bounding box, returning the resulting bounding boxes.
    ///
    /// # Arguments
    ///
    /// - `root`: The bounding box that gets split up.
    /// - `number_of_bboxes`: The number of bounding boxes that the given root bounding box should be split into.
    /// - `split_direction`: Whether to split the bounding box horizontally or vertically.
    ///
    /// # Special cases
    ///
    /// - If `number_of_bboxes` is 0, this function is a no-op and returns an empty `Vec`.
    /// - If the size of `root` is not a multiple of `number_of_bboxes`, the last bounding box
    ///   takes the remainder.
    pub fn equal_split(
        root: BBox,
        number_of_bboxes: usize,
        split_direction: SplitDirection,
    ) -> (bboxes: Vec<BBox>)
        ensures
            bboxes@ == Self::equal_parts(root, number_of_bboxes as nat, split_direction),
            bboxes@.len() == number_of_bboxes,
    {
        if number_of_bboxes == 0 {
            let bboxes: Vec<BBox> = Vec::with_capacity(0);
            assert(bboxes@ =~= Self::equal_parts(root, 0, split_direction));
            return bboxes;
        }
        let (start, extent) = match split_direction {
            SplitDirection::Horizontal => (root.y, root.height),
            SplitDirection::Vertical => (root.x, root.width),
        };
        let per_part = floor_div(extent, number_of_bboxes);
        let mut bboxes: Vec<BBox> = Vec::with_capacity(number_of_bboxes);
        // What the parts before the current one take, in wrapping arithmetic.
        let mut taken: i32 = 0;
        let mut i: usize = 0;
        while i < number_of_bboxes
            invariant
                i <= number_of_bboxes,
                start == root.start_along(split_direction),
                extent == root.extent_along(split_direction),
                per_part == extent as int / number_of_bboxes as int,
                taken == wrap_i32(i * per_part),
                bboxes@ == Seq::new(
                    i as nat,
                    |index: int|
                        Self::equal_part(root, number_of_bboxes as int, split_direction, index),
                ),
            decreases number_of_bboxes - i,
        {
            let ghost exact = i * per_part;
            proof {
                lemma_wrapping_add_right(start, exact);
                lemma_wrapping_sub_right(extent, exact);
                lemma_wrapping_add_left(exact, per_part);
                assert((i + 1) * per_part == exact + per_part) by (nonlinear_arith)
                    requires
                        exact == i * per_part,
                ;
            }
            let offset = start.wrapping_add(taken);
            let size = if i == number_of_bboxes - 1 {
                extent.wrapping_sub(taken)
            } else {
                per_part
            };
            let bbox = match split_direction {
                SplitDirection::Horizontal => BBox::with(root.x, offset, root.width, size),
                SplitDirection::Vertical => BBox::with(offset, root.y, size, root.height),
            };
            assert(bbox == Self::equal_part(
                root,
                number_of_bboxes as int,
                split_direction,
                i as int,
            ));
            bboxes.push(bbox);
            taken = taken.wrapping_add(per_part);
            i += 1;
            assert(bboxes@ =~= Seq::new(
                i as nat,
                |index: int|
                    Self::equal_part(root, number_of_bboxes as int, split_direction, index),
            ));
        }
        bboxes
    }

    /// Splits the current bounding box horizontally and returns the result.
    ///
    /// The upper part takes half of the height, rounded down; the lower part takes the rest.
    pub fn horizontal_split(&self) -> (split: HorizontalSplit)
        ensures
            split == self.horizontal_halves(),
    {
        let mut upper_builder = BBoxBuilder::from(*self);
        upper_builder.height(floor_div(self.height, 2));
        let upper = upper_builder.build();

        // In case that the height is actually odd.
        let lower_height = self.height - upper.height;
        let lower_new_y = self.y.wrapping_add(upper.height);

        let mut lower_builder = BBoxBuilder::from(*self);
        lower_builder.y(lower_new_y).height(lower_height);
        let lower = lower_builder.build();
        HorizontalSplit::with(upper, lower)
    }

    /// Splits the current bounding box vertically and returns the result.
    ///
    /// The left part takes half of the width, rounded down; the right part takes the rest.
    pub fn vertical_split(&self) -> (split: VerticalSplit)
        ensures
            split == self.vertical_halves(),
    {
        let mut left_builder = BBoxBuilder::from(*self);
        left_builder.width(floor_div(self.width, 2));
        let left = left_builder.build();

        // In case that the width is actually odd.
        let right_width = self.width - left.width;
        let right_new_x = self.x.wrapping_add(left.width);

        let mut right_builder = BBoxBuilder::from(*self);
        right_builder.x(right_new_x).width(right_width);
        let right = right_builder.build();
        VerticalSplit::with(left, right)
    }
}

/// A horizontal split tiles the bounding box: the two parts share its x-position and width,
/// the upper part starts where the box starts, the lower part starts where the upper part
/// ends, and the two heights add up to the height of the box.
///
/// This holds wherever the y-position of the lower part fits into an `i32`.
pub proof fn lemma_horizontal_split_tiles(bbox: BBox)
    requires
        i32::MIN <= bbox.y + bbox.height as int / 2 <= i32::MAX,
    ensures
        ({
            let HorizontalSplit(upper, lower) = bbox.horizontal_halves();
            &&& upper.height + lower.height == bbox.height
            &&& upper.height == bbox.height as int / 2
            &&& upper.y == bbox.y
            &&& lower.y == upper.y + upper.height
            &&& upper.x == bbox.x && lower.x == bbox.x
            &&& upper.width == bbox.width && lower.width == bbox.width
        }),
{
}

/// A vertical split tiles the bounding box: the two parts share its y-position and height,
/// the left part starts where the box starts, the right part starts where the left part
/// ends, and the two widths add up to the width of the box.
///
/// This holds wherever the x-position of the right part fits into an `i32`.
pub proof fn lemma_vertical_split_tiles(bbox: BBox)
    requires
        i32::MIN <= bbox.x + bbox.width as int / 2 <= i32::MAX,
    ensures
        ({
            let VerticalSplit(left, right) = bbox.vertical_halves();
            &&& left.width + right.width == bbox.width
            &&& left.width == bbox.width as int / 2
            &&& left.x == bbox.x
            &&& right.x == left.x + left.width
            &&& left.y == bbox.y && right.y == bbox.y
            &&& left.height == bbox.height && right.height == bbox.height
        }),
{
}

/// An equal split yields as many parts as were asked for, and none for zero.
pub proof fn lemma_equal_parts_count(root: BBox, parts: nat, direction: SplitDirection)
    ensures
        BBox::equal_parts(root, parts, direction).len() == parts,
        parts == 0 ==> BBox::equal_parts(root, parts, direction) == Seq::<BBox>::empty(),
{
    assert(BBox::equal_parts(root, 0, direction) =~= Seq::<BBox>::empty());
}

/// An equal split tiles a bounding box of non-negative size whose far edge fits into an `i32`:
/// the first part starts where the box starts, every other part starts where the part before
/// it ends, the last part ends where the box ends, no part has a negative size, every part
/// but the last has the same size, no part reaches into a later one, and across the split
/// axis all parts are as the box is.
pub proof fn lemma_equal_parts_tile(root: BBox, parts: nat, direction: SplitDirection)
    requires
        parts > 0,
        root.extent_along(direction) >= 0,
        root.start_along(direction) + root.extent_along(direction) <= i32::MAX,
    ensures
        ({
            let boxes = BBox::equal_parts(root, parts, direction);
            let per_part = root.extent_along(direction) as int / parts as int;
            &&& boxes[0].start_along(direction) == root.start_along(direction)
            &&& forall|i: int|
                0 < i < parts ==> (#[trigger] boxes[i]).start_along(direction) == boxes[i
                    - 1].start_along(direction) + boxes[i - 1].extent_along(direction)
            &&& boxes[parts - 1].start_along(direction) + boxes[parts - 1].extent_along(direction)
                == root.start_along(direction) + root.extent_along(direction)
            &&& forall|i: int|
                0 <= i < parts - 1 ==> (#[trigger] boxes[i]).extent_along(direction) == per_part
            &&& boxes[parts - 1].extent_along(direction) >= per_part >= 0
            &&& forall|i: int, j: int|
                0 <= i < j < parts ==> (#[trigger] boxes[i]).start_along(direction)
                    + boxes[i].extent_along(direction) <= (#[trigger] boxes[j]).start_along(
                    direction,
                )
            &&& forall|i: int|
                0 <= i < parts ==> (#[trigger] boxes[i]) == root.with_span(
                    direction,
                    boxes[i].start_along(direction),
                    boxes[i].extent_along(direction),
                )
        }),
{
    let boxes = BBox::equal_parts(root, parts, direction);
    let start = root.start_along(direction) as int;
    let extent = root.extent_along(direction) as int;
    let d = parts as int;
    let per_part = extent / d;
    lemma_fundamental_div_mod(extent, d);
    lemma_mod_bound(extent, d);
    assert(0 <= per_part && d * per_part <= extent) by (nonlinear_arith)
        requires
            extent == d * per_part + extent % d,
            0 <= extent % d < d,
            0 <= extent,
            d > 0,
    ;
    assert forall|i: int| 0 <= i < d implies 0 <= #[trigger] (i * per_part) && i * per_part
        + per_part <= extent by {
        assert(0 <= i * per_part && i * per_part + per_part <= d * per_part) by (nonlinear_arith)
            requires
                0 <= i < d,
                0 <= per_part,
        ;
    }
    assert forall|i: int| 0 <= i < d implies (#[trigger] boxes[i]).start_along(direction) == start
        + i * per_part && boxes[i].extent_along(direction) == (if i == d - 1 {
        extent - i * per_part
    } else {
        per_part
    }) by {
        assert(0 <= i * per_part && i * per_part + per_part <= extent);
        assert(boxes[i] == BBox::equal_part(root, d, direction, i));
    }
    assert forall|i: int| 0 < i < parts implies (#[trigger] boxes[i]).start_along(direction)
        == boxes[i - 1].start_along(direction) + boxes[i - 1].extent_along(direction) by {
        assert(i * per_part == (i - 1) * per_part + per_part) by (nonlinear_arith);
        assert(boxes[i - 1].start_along(direction) == start + (i - 1) * per_part);
    }
    assert forall|i: int, j: int| 0 <= i < j < parts implies (#[trigger] boxes[i]).start_along(
        direction,
    ) + boxes[i].extent_along(direction) <= (#[trigger] boxes[j]).start_along(direction) by {
        assert(i * per_part + per_part <= j * per_part) by (nonlinear_arith)
            requires
                0 <= i < j,
                0 <= per_part,
        ;
        assert(boxes[j].start_along(direction) == start + j * per_part);
    }
    assert(0 * per_part == 0);
    assert(boxes[0].start_along(direction) == start + 0 * per_part);
    assert(boxes[d - 1].start_along(direction) == start + (d - 1) * per_part);
}

/// A builder for creating bounding boxes.
#[derive(Copy, Clone, Debug, Eq, Hash, PartialEq, Structural)]
pub struct BBoxBuilder {
    bbox: BBox,
}

impl View for BBoxBuilder {
    type V = BBox;

    /// The bounding box that the builder would build.
    closed spec fn view(&self) -> BBox {
        self.bbox
    }
}

impl Default for BBoxBuilder {
    /// Returns a builder that holds the empty bounding box.
    fn default() -> (builder: Self)
        ensures
            builder@ == BBox::empty(),
    {
        BBoxBuilder { bbox: BBox::default() }
    }
}

impl BBoxBuilder {
    /// Creates an empty builder.
    pub fn new() -> (builder: Self)
        ensures
            builder@ == BBox::empty(),
    {
        Self::default()
    }

    /// Creates a new builder and pre-populates the fields using the bounding box's values.
    pub fn from(bbox: BBox) -> (builder: Self)
        ensures
            builder@ == bbox,
    {
        Self { bbox }
    }

    /// Sets the x-position.
    pub fn x(&mut self, x: i32) -> (builder: &mut Self)
        ensures
            builder@ == (BBox { x, ..old(self)@ }),
            *final(self) == *final(builder),
    {
        self.bbox.x = x;
        self
    }

    /// Sets the y-position.
    pub fn y(&mut self, y: i32) -> (builder: &mut Self)
        ensures
            builder@ == (BBox { y, ..old(self)@ }),
            *final(self) == *final(builder),
    {
        self.bbox.y = y;
        self
    }

    /// Sets the height value.
    pub fn height(&mut self, height: i32) -> (builder: &mut Self)
        ensures
            builder@ == (BBox { height, ..old(self)@ }),
            *final(self) == *final(builder),
    {
        self.bbox.height = height;
        self
    }

    /// Sets the width value.
    pub fn width(&mut self, width: i32) -> (builder: &mut Self)
        ensures
            builder@ == (BBox { width, ..old(self)@ }),
            *final(self) == *final(builder),
    {
        self.bbox.width = width;
        self
    }

    /// Creates a bounding box and consuming the builder.
    pub fn build(self) -> (bbox: BBox)
        ensures
            bbox == self@,
    {
        self.bbox
    }
}

} // verus!
