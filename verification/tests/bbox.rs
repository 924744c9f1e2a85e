use twm_core::bbox::BBox;
use twm_core::bbox::BBoxBuilder;
use twm_core::bbox::HorizontalSplit;
use twm_core::bbox::SplitDirection;
use twm_core::bbox::VerticalSplit;

#[test]
fn test_horizontal_split() {
    let bbox = BBox::with(0, 0, 1920, 1080);
    let splitted = bbox.horizontal_split();

    let upper = BBox::with(0, 0, 1920, 540);
    let lower = BBox::with(0, 540, 1920, 540);
    let expected = HorizontalSplit::with(upper, lower);

    assert_eq!(expected, splitted);
}

#[test]
fn test_vertical_split() {
    let bbox = BBox::with(0, 0, 1920, 1080);
    let splitted = bbox.vertical_split();

    let left = BBox::with(0, 0, 960, 1080);
    let right = BBox::with(960, 0, 960, 1080);
    let expected = VerticalSplit::with(left, right);

    assert_eq!(expected, splitted);
}

#[test]
fn horizontal_split_of_odd_height_gives_the_remainder_to_the_lower_part() {
    let splitted = BBox::with(10, 20, 300, 101).horizontal_split();
    assert_eq!(splitted.upper(), BBox::with(10, 20, 300, 50));
    assert_eq!(splitted.lower(), BBox::with(10, 70, 300, 51));
}

#[test]
fn vertical_split_of_odd_width_gives_the_remainder_to_the_right_part() {
    let splitted = BBox::with(10, 20, 301, 100).vertical_split();
    assert_eq!(splitted.left(), BBox::with(10, 20, 150, 100));
    assert_eq!(splitted.right(), BBox::with(160, 20, 151, 100));
}

#[test]
fn splits_tile_the_box() {
    let boxes = [
        BBox::with(0, 0, 1920, 1080),
        BBox::with(-7, 13, 1, 1),
        BBox::with(5, 5, 0, 0),
        BBox::with(100, -100, 1023, 767),
    ];
    for b in boxes {
        let h = b.horizontal_split();
        assert_eq!(h.upper().height + h.lower().height, b.height);
        assert_eq!(h.upper().y, b.y);
        assert_eq!(h.lower().y, h.upper().y + h.upper().height);
        assert_eq!((h.upper().x, h.upper().width), (b.x, b.width));
        assert_eq!((h.lower().x, h.lower().width), (b.x, b.width));

        let v = b.vertical_split();
        assert_eq!(v.left().width + v.right().width, b.width);
        assert_eq!(v.left().x, b.x);
        assert_eq!(v.right().x, v.left().x + v.left().width);
        assert_eq!((v.left().y, v.left().height), (b.y, b.height));
        assert_eq!((v.right().y, v.right().height), (b.y, b.height));
    }
}

#[test]
fn split_of_negative_size_rounds_down() {
    let splitted = BBox::with(0, 0, -3, -3).horizontal_split();
    assert_eq!(splitted.upper(), BBox::with(0, 0, -3, -2));
    assert_eq!(splitted.lower(), BBox::with(0, -2, -3, -1));
}

#[test]
fn split_wraps_where_the_position_does_not_fit() {
    let splitted = BBox::with(0, i32::MAX, 10, 2).horizontal_split();
    assert_eq!(splitted.upper(), BBox::with(0, i32::MAX, 10, 1));
    assert_eq!(splitted.lower(), BBox::with(0, i32::MIN, 10, 1));
}

#[test]
fn equal_split_into_four_columns() {
    let boxes = BBox::equal_split(BBox::with(0, 0, 1920, 1080), 4, SplitDirection::Vertical);
    assert_eq!(
        boxes,
        vec![
            BBox::with(0, 0, 480, 1080),
            BBox::with(480, 0, 480, 1080),
            BBox::with(960, 0, 480, 1080),
            BBox::with(1440, 0, 480, 1080),
        ]
    );
}

#[test]
fn equal_split_into_rows() {
    let boxes = BBox::equal_split(BBox::with(960, 0, 960, 1080), 2, SplitDirection::Horizontal);
    assert_eq!(boxes, vec![BBox::with(960, 0, 960, 540), BBox::with(960, 540, 960, 540)]);
}

#[test]
fn equal_split_into_zero_parts_is_empty() {
    let boxes = BBox::equal_split(BBox::with(0, 0, 1920, 1080), 0, SplitDirection::Vertical);
    assert!(boxes.is_empty());
    let boxes = BBox::equal_split(BBox::with(0, 0, 1920, 1080), 0, SplitDirection::Horizontal);
    assert!(boxes.is_empty());
}

#[test]
fn equal_split_returns_as_many_boxes_as_asked_for() {
    for n in 1..40usize {
        let rows = BBox::equal_split(BBox::with(3, 4, 100, 97), n, SplitDirection::Horizontal);
        assert_eq!(rows.len(), n);
        let columns = BBox::equal_split(BBox::with(3, 4, 100, 97), n, SplitDirection::Vertical);
        assert_eq!(columns.len(), n);
    }
}

#[test]
fn equal_split_gives_the_remainder_to_the_last_box() {
    let boxes = BBox::equal_split(BBox::with(5, 7, 100, 10), 3, SplitDirection::Vertical);
    assert_eq!(
        boxes,
        vec![BBox::with(5, 7, 33, 10), BBox::with(38, 7, 33, 10), BBox::with(71, 7, 34, 10)]
    );
    let boxes = BBox::equal_split(BBox::with(5, 7, 10, 100), 3, SplitDirection::Horizontal);
    assert_eq!(
        boxes,
        vec![BBox::with(5, 7, 10, 33), BBox::with(5, 40, 10, 33), BBox::with(5, 73, 10, 34)]
    );
}

#[test]
fn equal_split_tiles_the_root() {
    let root = BBox::with(-20, 11, 1001, 77);
    for n in 1..25usize {
        let boxes = BBox::equal_split(root, n, SplitDirection::Vertical);
        assert_eq!(boxes[0].x, root.x);
        for i in 1..n {
            assert_eq!(boxes[i].x, boxes[i - 1].x + boxes[i - 1].width);
        }
        assert_eq!(boxes[n - 1].x + boxes[n - 1].width, root.x + root.width);
        for b in &boxes {
            assert_eq!((b.y, b.height), (root.y, root.height));
            assert!(b.width >= 0);
        }
    }
}

#[test]
fn equal_split_into_more_parts_than_pixels() {
    let boxes = BBox::equal_split(BBox::with(0, 0, 2, 5), 4, SplitDirection::Vertical);
    assert_eq!(
        boxes,
        vec![
            BBox::with(0, 0, 0, 5),
            BBox::with(0, 0, 0, 5),
            BBox::with(0, 0, 0, 5),
            BBox::with(0, 0, 2, 5),
        ]
    );
}

#[test]
fn equal_split_of_a_degenerate_root() {
    let boxes = BBox::equal_split(BBox::new(), 2, SplitDirection::Horizontal);
    assert_eq!(boxes, vec![BBox::new(), BBox::new()]);
}

#[test]
fn equal_split_of_a_negative_size_rounds_down() {
    let boxes = BBox::equal_split(BBox::with(0, 0, -5, 1), 2, SplitDirection::Vertical);
    assert_eq!(boxes, vec![BBox::with(0, 0, -3, 1), BBox::with(-3, 0, -2, 1)]);
}

#[test]
fn empty_values() {
    assert_eq!(BBox::new(), BBox::with(0, 0, 0, 0));
    assert_eq!(BBox::default(), BBox::new());
    assert_eq!(HorizontalSplit::new(), HorizontalSplit::with(BBox::new(), BBox::new()));
    assert_eq!(VerticalSplit::new(), VerticalSplit::with(BBox::new(), BBox::new()));
    assert_eq!(SplitDirection::default(), SplitDirection::Horizontal);
}

#[test]
fn builder_sets_each_value() {
    assert_eq!(BBoxBuilder::new().build(), BBox::new());
    let mut builder = BBoxBuilder::from(BBox::with(1, 2, 3, 4));
    assert_eq!(builder.build(), BBox::with(1, 2, 3, 4));
    builder.x(10);
    assert_eq!(builder.build(), BBox::with(10, 2, 3, 4));
    builder.y(20).width(30);
    assert_eq!(builder.build(), BBox::with(10, 20, 30, 4));
    builder.height(40);
    assert_eq!(builder.build(), BBox::with(10, 20, 30, 40));
}
