use level_editor::coords::ScreenScale;
use level_editor::input_handler::Key;
use level_editor::instances::{
    ActivatingColor, Floor, FloorType, Layer, Object, ObjectType, Wall, WallData, WallType,
};
use level_editor::level_data::CellPos;
use level_editor::resources::{draw_content, draw_wall, DrawId};
use level_editor::session::{is_control, EditorSession};

const SCALE: ScreenScale = ScreenScale { view_w: 128, view_h: 96, window_w: 1024, window_h: 768 };

fn text(v: &[char]) -> String {
    v.iter().collect()
}

#[test]
fn pointer_paints_and_erases_the_cell_under_it() {
    let mut s = EditorSession::new();
    s.pointer_event(true, false, 80, 40, SCALE);
    assert_eq!(
        s.level_data.get(CellPos { x: 0, y: 0 }, Layer::Object(())),
        Some(Layer::Object(Object::default(ObjectType::Player)))
    );
    s.key_down_event(Some(Key::Key3));
    s.pointer_event(true, false, 80, 40, SCALE);
    s.pointer_event(true, false, 40, 80, SCALE);
    let seg = WallData::default(WallType::Normal);
    assert_eq!(
        s.level_data.get(CellPos { x: 0, y: 0 }, Layer::Wall(())),
        Some(Layer::Wall(Wall { down: Some(seg), right: Some(seg) }))
    );
    s.pointer_event(false, true, 80, 40, SCALE);
    assert_eq!(
        s.level_data.get(CellPos { x: 0, y: 0 }, Layer::Wall(())),
        Some(Layer::Wall(Wall { down: Some(seg), right: None }))
    );
    assert!(s.level_data.get(CellPos { x: 0, y: 0 }, Layer::Object(())).is_some());
}

#[test]
fn save_request_asks_for_a_path_first() {
    let mut s = EditorSession::new();
    s.key_down_event(Some(Key::Escape));
    assert_eq!(s.save_step(), None);
    assert!(s.entering_text);
    for c in "lvl.tx".chars() {
        s.text_input_event(c);
    }
    s.text_input_event('\u{8}');
    s.key_down_event(Some(Key::Back));
    assert_eq!(text(&s.current_path), "lvl.t");
    assert_eq!(text(&s.text_to_draw), "lvl.t");
    s.text_input_event('x');
    s.text_input_event('t');
    s.key_down_event(Some(Key::Return));
    assert!(!s.entering_text);
    assert!(s.text_to_draw.is_empty());
    let out = s.save_step().unwrap();
    assert_eq!(text(&out), "0,0\n\n\n\n\n\n\n");
    assert!(!s.input_handler.request_save);
    assert_eq!(text(&s.current_path), "lvl.txt");
    assert_eq!(s.save_step(), None);
}

#[test]
fn load_request_replaces_the_level() {
    let mut s = EditorSession::new();
    s.pointer_event(true, false, 80, 40, SCALE);
    s.key_down_event(Some(Key::Space));
    assert!(!s.load_step());
    s.text_input_event('a');
    s.key_down_event(Some(Key::Return));
    assert!(s.load_step());
    let contents: Vec<char> = "0,0\nbox 4,4  c:b\n".chars().collect();
    s.finish_load(&contents);
    assert_eq!(s.level_data.get(CellPos { x: 0, y: 0 }, Layer::Object(())), None);
    assert_eq!(
        s.level_data.get(CellPos { x: 4, y: 4 }, Layer::Object(())),
        Some(Layer::Object(Object::new(ObjectType::Box, ActivatingColor::Blue)))
    );
}

#[test]
fn error_message_clears_on_next_key() {
    let mut s = EditorSession::new();
    s.encountered_error("no such file".chars().collect());
    assert!(s.showing_error);
    s.key_down_event(Some(Key::S));
    assert!(!s.showing_error);
    assert!(s.text_to_draw.is_empty());
    assert_eq!(s.input_handler.color, ActivatingColor::Red);
}

#[test]
fn control_characters_are_recognised() {
    assert!(is_control('\n'));
    assert!(is_control('\u{7f}'));
    assert!(is_control('\u{9f}'));
    assert!(!is_control('a'));
    assert!(!is_control('\u{a0}'));
}

#[test]
fn sprites_of_contents() {
    let mut f = Floor::new(FloorType::Normal, ActivatingColor::Red);
    f.durability = 2;
    assert_eq!(draw_content(&Layer::Floor(f)), vec![(DrawId::Floor2, ActivatingColor::Red)]);
    f.durability = 9;
    assert!(draw_content(&Layer::Floor(f)).is_empty());
    let open = WallData::new(WallType::Normal, ActivatingColor::Blue, false, true);
    let shut = WallData::new(WallType::Normal, ActivatingColor::Green, false, false);
    assert_eq!(
        draw_wall(&Wall { down: Some(shut), right: Some(open) }),
        vec![
            (DrawId::VerticalWallOpened, ActivatingColor::Blue),
            (DrawId::HorizontalWallClosed, ActivatingColor::Green)
        ]
    );
    assert_eq!(
        draw_content(&Layer::Object(Object::default(ObjectType::Player))),
        vec![(DrawId::Player, ActivatingColor::Uncolored)]
    );
}

#[test]
fn preview_replaces_or_joins_the_frame() {
    let mut s = EditorSession::new();
    s.pointer_event(true, false, 80, 40, SCALE);
    let preview = Layer::Object(Object::new(ObjectType::Box, ActivatingColor::Red));
    let here = CellPos { x: 0, y: 0 };
    assert_eq!(s.level_data.draw_with(preview, here), vec![(here, preview)]);
    let there = CellPos { x: 1, y: 0 };
    assert_eq!(
        s.level_data.draw_with(preview, there),
        vec![(here, Layer::Object(Object::default(ObjectType::Player))), (there, preview)]
    );
}
