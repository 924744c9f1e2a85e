use twm_core::bbox::BBox;
use twm_core::display::Display;
use twm_core::layout::middle_layout::MiddleLayout;
use twm_core::layout::sided_layout::SidedLayout;
use twm_core::layout::Layout;
use twm_core::layout::LayoutKind;
use twm_core::layout::LayoutUpdateInfo;
use twm_core::tile::Tile;
use twm_core::tile::TileId;
use twm_core::util::Direction;
use twm_core::window::Window;
use twm_core::workspace::Workspace;

fn generate_tiles(number_of_tiles: usize) -> Vec<Tile> {
    let mut vec = Vec::with_capacity(number_of_tiles);
    for i in 0..number_of_tiles {
        let tile = Tile::with(i as TileId, BBox::new(), Window::new());
        vec.push(tile);
    }

    vec
}

fn tiles_with_ids(ids: &[TileId]) -> Vec<Tile> {
    ids.iter().map(|id| Tile::with(*id, BBox::new(), Window::with(*id + 100, 7, BBox::new()))).collect()
}

fn bboxes(tiles: &[Tile]) -> Vec<BBox> {
    tiles.iter().map(|t| t.bbox).collect()
}

fn lay_out(layout: &mut SidedLayout, tiles: &mut Vec<Tile>, workspace_bbox: BBox) {
    let mut update_info = LayoutUpdateInfo { tiles, workspace_bbox };
    layout.layout(&mut update_info);
}

#[test]
fn test_layout() {
    let mut display = Display::new();
    display.bbox = BBox::with(0, 0, 1920, 1080);
    let mut workspace = Workspace::with(0, display);
    for tile in generate_tiles(3) {
        workspace.add_tile(tile);
    }

    workspace.layout.invalidate();
    workspace.layout();

    assert_eq!(true, true);
}

#[test]
fn sided_layout_gives_the_left_half_to_the_highest_id() {
    let mut display = Display::new();
    display.bbox = BBox::with(0, 0, 1920, 1080);
    let mut workspace = Workspace::with(0, display);
    for tile in generate_tiles(3) {
        workspace.add_tile(tile);
    }

    workspace.layout.invalidate();
    workspace.layout();

    assert_eq!(workspace.tile_by_id(2).unwrap().bbox, BBox::with(0, 0, 960, 1080));
    assert_eq!(workspace.tile_by_id(0).unwrap().bbox, BBox::with(960, 0, 960, 540));
    assert_eq!(workspace.tile_by_id(1).unwrap().bbox, BBox::with(960, 540, 960, 540));
    assert!(!workspace.layout.is_dirty());
}

#[test]
fn sided_layout_keeps_ids_and_windows() {
    let mut tiles = tiles_with_ids(&[4, 9, 2]);
    let before = tiles.clone();
    let mut layout = SidedLayout::new();
    lay_out(&mut layout, &mut tiles, BBox::with(0, 0, 1920, 1080));
    for (tile, old) in tiles.iter().zip(before.iter()) {
        assert_eq!(tile.id, old.id);
        assert_eq!(tile.window, old.window);
    }
}

#[test]
fn sided_layout_skips_the_slot_of_the_sided_tile() {
    let mut tiles = tiles_with_ids(&[7, 1, 3]);
    let mut layout = SidedLayout::with(Direction::Left);
    lay_out(&mut layout, &mut tiles, BBox::with(0, 0, 1920, 1080));
    assert_eq!(
        bboxes(&tiles),
        vec![
            BBox::with(0, 0, 960, 1080),
            BBox::with(960, 0, 960, 540),
            BBox::with(960, 540, 960, 540),
        ]
    );

    let mut tiles = tiles_with_ids(&[1, 7, 3]);
    let mut layout = SidedLayout::with(Direction::Left);
    lay_out(&mut layout, &mut tiles, BBox::with(0, 0, 1920, 1080));
    assert_eq!(
        bboxes(&tiles),
        vec![
            BBox::with(960, 0, 960, 540),
            BBox::with(0, 0, 960, 1080),
            BBox::with(960, 540, 960, 540),
        ]
    );
}

#[test]
fn sided_layout_on_the_right() {
    let mut tiles = tiles_with_ids(&[0, 1, 2]);
    let mut layout = SidedLayout::with(Direction::Right);
    lay_out(&mut layout, &mut tiles, BBox::with(0, 0, 1920, 1080));
    assert_eq!(
        bboxes(&tiles),
        vec![
            BBox::with(0, 0, 960, 540),
            BBox::with(0, 540, 960, 540),
            BBox::with(960, 0, 960, 1080),
        ]
    );
}

#[test]
fn sided_layout_on_the_upper_side() {
    let mut tiles = tiles_with_ids(&[0, 1, 2]);
    let mut layout = SidedLayout::with(Direction::Up);
    lay_out(&mut layout, &mut tiles, BBox::with(0, 0, 1920, 1080));
    assert_eq!(
        bboxes(&tiles),
        vec![
            BBox::with(0, 540, 960, 540),
            BBox::with(960, 540, 960, 540),
            BBox::with(0, 0, 1920, 540),
        ]
    );
}

#[test]
fn sided_layout_on_the_lower_side() {
    let mut tiles = tiles_with_ids(&[0, 1, 2]);
    let mut layout = SidedLayout::with(Direction::Down);
    lay_out(&mut layout, &mut tiles, BBox::with(0, 0, 1920, 1080));
    assert_eq!(
        bboxes(&tiles),
        vec![
            BBox::with(0, 0, 960, 540),
            BBox::with(960, 0, 960, 540),
            BBox::with(0, 540, 1920, 540),
        ]
    );
}

#[test]
fn sided_layout_with_one_tile_gives_it_the_sided_region() {
    let mut tiles = tiles_with_ids(&[5]);
    let mut layout = SidedLayout::new();
    lay_out(&mut layout, &mut tiles, BBox::with(0, 0, 1920, 1080));
    assert_eq!(bboxes(&tiles), vec![BBox::with(0, 0, 960, 1080)]);
}

#[test]
fn sided_layout_with_odd_sizes() {
    let mut tiles = tiles_with_ids(&[0, 1, 2, 3]);
    let mut layout = SidedLayout::new();
    lay_out(&mut layout, &mut tiles, BBox::with(0, 0, 1001, 100));
    assert_eq!(
        bboxes(&tiles),
        vec![
            BBox::with(500, 0, 501, 33),
            BBox::with(500, 33, 501, 33),
            BBox::with(500, 66, 501, 34),
            BBox::with(0, 0, 500, 100),
        ]
    );
}

#[test]
fn sided_layout_with_a_repeated_highest_id() {
    let mut tiles = tiles_with_ids(&[3, 1, 3, 2]);
    let mut layout = SidedLayout::new();
    lay_out(&mut layout, &mut tiles, BBox::with(0, 0, 1920, 900));
    assert_eq!(
        bboxes(&tiles),
        vec![
            BBox::with(0, 0, 960, 900),
            BBox::with(960, 0, 960, 300),
            BBox::with(0, 0, 960, 900),
            BBox::with(960, 300, 960, 300),
        ]
    );
}

#[test]
fn layouts_start_dirty() {
    assert!(SidedLayout::new().is_dirty());
    assert!(SidedLayout::default().is_dirty());
    assert!(SidedLayout::with(Direction::Down).is_dirty());
    assert!(MiddleLayout::default().is_dirty());
    assert_eq!(SidedLayout::new().side, Direction::Left);
    assert_eq!(SidedLayout::with(Direction::Up).side, Direction::Up);
    assert_eq!(Direction::default(), Direction::Left);
}

#[test]
fn second_layout_pass_changes_nothing() {
    let mut tiles = tiles_with_ids(&[0, 1, 2]);
    let mut layout = SidedLayout::new();
    lay_out(&mut layout, &mut tiles, BBox::with(0, 0, 1920, 1080));
    let first = tiles.clone();
    assert!(!layout.is_dirty());

    // A clean layout does not even look at the bounding box.
    lay_out(&mut layout, &mut tiles, BBox::with(0, 0, 800, 600));
    assert_eq!(tiles, first);
    assert!(!layout.is_dirty());

    layout.invalidate();
    assert!(layout.is_dirty());
    layout.invalidate();
    assert!(layout.is_dirty());
    lay_out(&mut layout, &mut tiles, BBox::with(0, 0, 800, 600));
    assert_eq!(
        bboxes(&tiles),
        vec![
            BBox::with(400, 0, 400, 300),
            BBox::with(400, 300, 400, 300),
            BBox::with(0, 0, 400, 600),
        ]
    );
}

#[test]
fn layout_of_no_tiles_makes_the_layout_clean() {
    let mut tiles: Vec<Tile> = Vec::new();
    let mut layout = SidedLayout::new();
    layout.invalidate();
    lay_out(&mut layout, &mut tiles, BBox::with(0, 0, 1920, 1080));
    assert!(!layout.is_dirty());
    assert!(tiles.is_empty());
    assert_eq!(layout.side, Direction::Left);
}

#[test]
fn middle_layout_changes_no_tile() {
    let mut tiles = tiles_with_ids(&[0, 1, 2]);
    let before = tiles.clone();
    let mut layout = MiddleLayout::default();
    layout.invalidate();
    {
        let mut update_info =
            LayoutUpdateInfo { tiles: &mut tiles, workspace_bbox: BBox::with(0, 0, 1920, 1080) };
        layout.layout(&mut update_info);
    }
    assert_eq!(tiles, before);
    assert!(!layout.is_dirty());
    layout.invalidate();
    assert!(layout.is_dirty());
}

#[test]
fn layout_names() {
    assert_eq!(SidedLayout::new().metadata().name, "Sided Layout");
    assert_eq!(MiddleLayout::default().metadata().name, "Middle Layout");
    assert_eq!(LayoutKind::Sided(SidedLayout::new()).metadata().name, "Sided Layout");
    assert_eq!(LayoutKind::Middle(MiddleLayout::default()).metadata().name, "Middle Layout");
}

#[test]
fn layout_kind_forwards_to_its_layout() {
    let mut kind = LayoutKind::Middle(MiddleLayout::default());
    let mut tiles = tiles_with_ids(&[0, 1]);
    let before = tiles.clone();
    {
        let mut update_info =
            LayoutUpdateInfo { tiles: &mut tiles, workspace_bbox: BBox::with(0, 0, 100, 100) };
        kind.layout(&mut update_info);
    }
    assert_eq!(tiles, before);
    assert!(!kind.is_dirty());
    kind.invalidate();
    assert!(kind.is_dirty());

    let mut kind = LayoutKind::Sided(SidedLayout::with(Direction::Right));
    {
        let mut update_info =
            LayoutUpdateInfo { tiles: &mut tiles, workspace_bbox: BBox::with(0, 0, 100, 100) };
        kind.layout(&mut update_info);
    }
    assert_eq!(bboxes(&tiles), vec![BBox::with(0, 0, 50, 100), BBox::with(50, 0, 50, 100)]);
    assert!(!kind.is_dirty());
}
