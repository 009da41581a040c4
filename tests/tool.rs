use level_editor::input_handler::{InputHandler, Key};
use level_editor::instances::{
    ActivatingColor, Floor, FloorType, Layer, Object, ObjectType, WallData, WallType,
};

#[test]
fn item_index_past_palette_is_ignored() {
    let mut tool = InputHandler::new();
    tool.handle_input(Some(Key::Key3));
    assert_eq!(tool.layer(), Layer::Wall(()));
    tool.set_current_item(9);
    assert_eq!(tool.wall_item, WallType::Normal);
    tool.handle_input(Some(Key::P));
    assert_eq!(tool.wall_item, WallType::Normal);
    tool.handle_input(Some(Key::Key1));
    tool.handle_input(Some(Key::E));
    assert_eq!(tool.object_item, ObjectType::TeleBox);
    tool.handle_input(Some(Key::R));
    assert_eq!(tool.object_item, ObjectType::TeleBox);
}

#[test]
fn durability_capture_takes_one_digit() {
    let mut tool = InputHandler::new();
    tool.handle_input(Some(Key::Key2));
    tool.handle_input(Some(Key::B));
    assert!(tool.waiting_for_durability_input);
    tool.handle_input(Some(Key::Key5));
    assert_eq!(tool.floor_durability, 5);
    assert!(!tool.waiting_for_durability_input);
    assert_eq!(tool.layer(), Layer::Floor(()));
    tool.handle_input(Some(Key::Key1));
    assert_eq!(tool.layer(), Layer::Object(()));
    assert_eq!(tool.floor_durability, 5);
}

#[test]
fn non_digit_disarms_capture_without_effect() {
    let mut tool = InputHandler::new();
    tool.handle_input(Some(Key::B));
    tool.handle_input(Some(Key::S));
    assert!(!tool.waiting_for_durability_input);
    assert_eq!(tool.color, ActivatingColor::Uncolored);
    assert_eq!(tool.floor_durability, 1);
    tool.handle_input(None);
    tool.handle_input(Some(Key::S));
    assert_eq!(tool.color, ActivatingColor::Red);
}

#[test]
fn tool_data_follows_selection() {
    let mut tool = InputHandler::new();
    assert_eq!(tool.get_data(), Layer::Object(Object::new(ObjectType::Player, ActivatingColor::Uncolored)));
    tool.handle_input(Some(Key::J));
    tool.handle_input(Some(Key::Key2));
    tool.handle_input(Some(Key::B));
    tool.handle_input(Some(Key::Key7));
    let mut floor = Floor::new(FloorType::Normal, ActivatingColor::Pink);
    floor.durability = 7;
    assert_eq!(tool.get_data(), Layer::Floor(floor));
    tool.handle_input(Some(Key::W));
    assert_eq!(tool.get_data(), Layer::Floor(Floor::new(FloorType::Button, ActivatingColor::Pink)));
    tool.handle_input(Some(Key::Key3));
    tool.handle_input(Some(Key::N));
    tool.handle_input(Some(Key::M));
    assert_eq!(
        tool.get_data(),
        Layer::Wall(WallData::new(WallType::Normal, ActivatingColor::Pink, true, true))
    );
    tool.handle_input(Some(Key::M));
    assert_eq!(
        tool.get_data(),
        Layer::Wall(WallData::new(WallType::Normal, ActivatingColor::Pink, true, false))
    );
}

#[test]
fn request_keys_set_flags() {
    let mut tool = InputHandler::new();
    tool.handle_input(Some(Key::Escape));
    assert!(tool.request_save);
    assert!(!tool.request_load);
    tool.handle_input(Some(Key::Space));
    assert!(tool.request_load);
    tool.handle_input(Some(Key::Other));
    assert!(tool.request_save && tool.request_load);
}
