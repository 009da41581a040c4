use level_editor::coords::{is_right, to_level_loader_coords, ScreenScale};
use level_editor::instances::WallOrientation;
use level_editor::level_data::CellPos;

const SCALE: ScreenScale = ScreenScale { view_w: 128, view_h: 96, window_w: 1024, window_h: 768 };

#[test]
fn pointer_maps_to_cell_and_right_edge() {
    assert_eq!(to_level_loader_coords(80, 40, SCALE), Some(CellPos { x: 0, y: 0 }));
    assert_eq!(is_right(80, 40, SCALE), WallOrientation::Right);
}

#[test]
fn nearer_bottom_edge_gives_down() {
    assert_eq!(is_right(40, 80, SCALE), WallOrientation::Down);
    assert_eq!(is_right(40, 40, SCALE), WallOrientation::Down);
}

#[test]
fn cells_further_out() {
    assert_eq!(to_level_loader_coords(1023, 767, SCALE), Some(CellPos { x: 7, y: 5 }));
    assert_eq!(to_level_loader_coords(128, 128, SCALE), Some(CellPos { x: 1, y: 1 }));
    assert_eq!(to_level_loader_coords(127, 127, SCALE), Some(CellPos { x: 0, y: 0 }));
}

#[test]
fn negative_positions_round_down() {
    assert_eq!(to_level_loader_coords(-1, -128, SCALE), Some(CellPos { x: -1, y: -1 }));
    assert_eq!(to_level_loader_coords(-129, 0, SCALE), Some(CellPos { x: -2, y: 0 }));
    assert_eq!(is_right(-8, -120, SCALE), WallOrientation::Right);
}

#[test]
fn cell_index_outside_i32_is_none() {
    let wide = ScreenScale { view_w: 0x1000_0000, view_h: 1, window_w: 1, window_h: 1 };
    assert_eq!(to_level_loader_coords(0x1000_0000, 0, wide), None);
    assert_eq!(to_level_loader_coords(1, 0, wide), Some(CellPos { x: 0x100_0000, y: 0 }));
}
