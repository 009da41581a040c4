use level_editor::instances::{
    ActivatingColor, Collectible, CollectibleType, Floor, FloorType, Layer, LayerContent, Object,
    ObjectType, Wall, WallData, WallOrientation, WallType,
};
use level_editor::level_data::{CellPos, LevelData};

fn segment(color: ActivatingColor) -> WallData {
    WallData::new(WallType::Normal, color, false, false)
}

#[test]
fn wall_segments_are_independent() {
    let mut level = LevelData::new();
    let pos = CellPos { x: 2, y: 3 };
    let right = segment(ActivatingColor::Red);
    let down = segment(ActivatingColor::Blue);
    level.insert(pos, Layer::Wall(right), WallOrientation::Right);
    level.insert(pos, Layer::Wall(down), WallOrientation::Down);
    assert_eq!(
        level.get(pos, Layer::Wall(())),
        Some(Layer::Wall(Wall { down: Some(down), right: Some(right) }))
    );
    level.remove(pos, Layer::Wall(()), WallOrientation::Right);
    assert_eq!(
        level.get(pos, Layer::Wall(())),
        Some(Layer::Wall(Wall { down: Some(down), right: None }))
    );
}

#[test]
fn wall_without_segments_is_dropped() {
    let mut level = LevelData::new();
    let pos = CellPos { x: -4, y: 7 };
    level.insert(pos, Layer::Wall(segment(ActivatingColor::Green)), WallOrientation::Down);
    level.remove(pos, Layer::Wall(()), WallOrientation::Down);
    assert_eq!(level.get(pos, Layer::Wall(())), None);
    assert!(level.iterate(Layer::Wall(())).is_empty());
}

#[test]
fn last_write_wins() {
    let mut level = LevelData::new();
    let pos = CellPos { x: 1, y: 1 };
    level.insert(pos, Layer::Object(Object::new(ObjectType::Box, ActivatingColor::Red)), WallOrientation::Down);
    level.insert(pos, Layer::Object(Object::new(ObjectType::Box, ActivatingColor::Cyan)), WallOrientation::Down);
    assert_eq!(
        level.get(pos, Layer::Object(())),
        Some(Layer::Object(Object::new(ObjectType::Box, ActivatingColor::Cyan)))
    );
    assert_eq!(level.iterate(Layer::Object(())).len(), 1);
}

#[test]
fn layers_of_a_cell_are_separate() {
    let mut level = LevelData::new();
    let pos = CellPos { x: 0, y: 0 };
    let floor = Floor::new(FloorType::Button, ActivatingColor::Yellow);
    let win = Collectible::new(CollectibleType::Win, ActivatingColor::Pink);
    level.insert(pos, Layer::Floor(floor), WallOrientation::Down);
    level.insert(pos, Layer::Collectible(win), WallOrientation::Down);
    level.insert(pos, Layer::Object(Object::default(ObjectType::Player)), WallOrientation::Down);
    level.remove(pos, Layer::Object(()), WallOrientation::Down);
    assert_eq!(level.get(pos, Layer::Object(())), None);
    assert_eq!(level.get(pos, Layer::Floor(())), Some(Layer::Floor(floor)));
    assert_eq!(level.get(pos, Layer::Collectible(())), Some(Layer::Collectible(win)));
    level.remove(CellPos { x: 5, y: 5 }, Layer::Floor(()), WallOrientation::Down);
    assert_eq!(level.get(pos, Layer::Floor(())), Some(Layer::Floor(floor)));
}

#[test]
fn content_of_a_wall_paint_has_one_segment() {
    let d = segment(ActivatingColor::Uncolored);
    let c: LayerContent = LayerContent::new(Layer::Wall(d), WallOrientation::Right);
    assert_eq!(c, Layer::Wall(Wall { down: None, right: Some(d) }));
    let f = Floor::default(FloorType::Teleport);
    assert_eq!(LayerContent::new(Layer::Floor(f), WallOrientation::Down), Layer::Floor(f));
    assert_eq!(f.durability, -1);
}

#[test]
fn merge_takes_present_segments_only() {
    let a = segment(ActivatingColor::Red);
    let b = segment(ActivatingColor::Blue);
    let mut w = Wall { down: Some(a), right: Some(a) };
    w.merge(Wall { down: None, right: Some(b) });
    assert_eq!(w, Wall { down: Some(a), right: Some(b) });
    let mut e = Wall::new();
    e.merge_data(b, WallOrientation::Down);
    assert_eq!(e, Wall { down: Some(b), right: None });
}

#[test]
fn iterate_lists_each_cell_of_a_layer() {
    let mut level = LevelData::new();
    let a = Object::new(ObjectType::Box, ActivatingColor::Red);
    let b = Object::new(ObjectType::TeleBox, ActivatingColor::Blue);
    level.insert(CellPos { x: 1, y: 0 }, Layer::Object(a), WallOrientation::Down);
    level.insert(CellPos { x: 0, y: 1 }, Layer::Object(b), WallOrientation::Down);
    level.insert(CellPos { x: 1, y: 0 }, Layer::Object(b), WallOrientation::Down);
    let mut cells = level.iterate(Layer::Object(()));
    cells.sort_by_key(|(p, _)| (p.x, p.y));
    assert_eq!(
        cells,
        vec![(CellPos { x: 0, y: 1 }, Layer::Object(b)), (CellPos { x: 1, y: 0 }, Layer::Object(b))]
    );
    assert!(level.iterate(Layer::Wall(())).is_empty());
}
