use level_editor::instances::{
    ActivatingColor, Collectible, CollectibleType, Floor, FloorType, Layer, Object, ObjectType,
    Wall, WallData, WallOrientation, WallType,
};
use level_editor::level_data::{CellPos, LevelData};
use level_editor::serialization::{
    load, parse_bool, parse_color, parse_line, save, save_lists, write_wall,
};
use level_editor::text::parse_i32_chars;

fn chars(s: &str) -> Vec<char> {
    s.chars().collect()
}

fn text(v: &[char]) -> String {
    v.iter().collect()
}

fn sample() -> LevelData {
    let mut level = LevelData::new();
    let mut floor = Floor::new(FloorType::Normal, ActivatingColor::Red);
    floor.durability = 3;
    level.insert(CellPos { x: 1, y: 2 }, Layer::Floor(floor), WallOrientation::Down);
    level.insert(
        CellPos { x: -1, y: 0 },
        Layer::Object(Object::new(ObjectType::Box, ActivatingColor::Uncolored)),
        WallOrientation::Down,
    );
    level.insert(
        CellPos { x: 0, y: 5 },
        Layer::Collectible(Collectible::new(CollectibleType::Win, ActivatingColor::Green)),
        WallOrientation::Down,
    );
    level.insert(
        CellPos { x: 3, y: 4 },
        Layer::Wall(WallData::new(WallType::Normal, ActivatingColor::Uncolored, true, false)),
        WallOrientation::Right,
    );
    level
}

#[test]
fn save_writes_the_documented_format() {
    let out = text(&save(&sample()));
    assert_eq!(
        out,
        "1,2\nfloor 1,2  dur:3 c:r\n\n\nbox -1,0  c:n\n\n\nwin 0,5  c:g\n\n\nwall 3,4 r c:n closed:true inputbased:true\n"
    );
}

#[test]
fn header_holds_largest_floor_coordinates() {
    let mut level = LevelData::new();
    let f = Floor::default(FloorType::Button);
    level.insert(CellPos { x: -3, y: 9 }, Layer::Floor(f), WallOrientation::Down);
    level.insert(CellPos { x: 12, y: -40 }, Layer::Floor(f), WallOrientation::Down);
    let out = text(&save(&level));
    assert!(out.starts_with("12,9\n"));
    assert!(text(&save(&LevelData::new())).starts_with("0,0\n"));
}

#[test]
fn round_trip_keeps_every_cell() {
    let mut level = sample();
    let down = WallData::new(WallType::Normal, ActivatingColor::Pink, false, true);
    level.insert(CellPos { x: 3, y: 4 }, Layer::Wall(down), WallOrientation::Down);
    level.insert(
        CellPos { x: -7, y: -8 },
        Layer::Floor(Floor::new(FloorType::Teleport, ActivatingColor::Cyan)),
        WallOrientation::Down,
    );
    let back = load(&save(&level));
    for layer in [Layer::Object(()), Layer::Floor(()), Layer::Wall(()), Layer::Collectible(())] {
        for (x, y) in [(1, 2), (-1, 0), (0, 5), (3, 4), (-7, -8), (9, 9)] {
            let pos = CellPos { x, y };
            assert_eq!(back.get(pos, layer), level.get(pos, layer));
        }
    }
    assert_eq!(back.iterate(Layer::Wall(())).len(), 1);
    assert_eq!(back.iterate(Layer::Floor(())).len(), 2);
}

#[test]
fn malformed_line_is_skipped() {
    let file = "0,0\nplayer 1,1  c:r\nbogus 9,9 oops\nfloor 2,2  dur:4 c:b\n";
    let level = load(&chars(file));
    assert_eq!(
        level.get(CellPos { x: 1, y: 1 }, Layer::Object(())),
        Some(Layer::Object(Object::new(ObjectType::Player, ActivatingColor::Red)))
    );
    let mut floor = Floor::new(FloorType::Normal, ActivatingColor::Blue);
    floor.durability = 4;
    assert_eq!(level.get(CellPos { x: 2, y: 2 }, Layer::Floor(())), Some(Layer::Floor(floor)));
    assert_eq!(level.get(CellPos { x: 9, y: 9 }, Layer::Object(())), None);
    let count: usize = [Layer::Object(()), Layer::Floor(()), Layer::Wall(()), Layer::Collectible(())]
        .into_iter()
        .map(|layer| level.iterate(layer).len())
        .sum();
    assert_eq!(count, 2);
}

#[test]
fn first_line_comments_and_bad_values_are_skipped() {
    let file = "player 5,5\r\n# box 1,1\r\nbox 1,x\r\nfloor 3,3  dur:abc\r\ntelebox 4,4 \r\nwall 6,6\r\nwall 7,7 d closed:false c:y\r\n";
    let level = load(&chars(file));
    assert_eq!(level.get(CellPos { x: 5, y: 5 }, Layer::Object(())), None);
    assert_eq!(level.get(CellPos { x: 1, y: 1 }, Layer::Object(())), None);
    assert_eq!(level.get(CellPos { x: 3, y: 3 }, Layer::Floor(())), None);
    assert_eq!(
        level.get(CellPos { x: 4, y: 4 }, Layer::Object(())),
        Some(Layer::Object(Object::default(ObjectType::TeleBox)))
    );
    assert_eq!(level.get(CellPos { x: 6, y: 6 }, Layer::Wall(())), None);
    assert_eq!(
        level.get(CellPos { x: 7, y: 7 }, Layer::Wall(())),
        Some(Layer::Wall(Wall {
            down: Some(WallData::new(WallType::Normal, ActivatingColor::Yellow, false, true)),
            right: None,
        }))
    );
}

#[test]
fn later_lines_and_properties_win() {
    let file = "\nbutton 0,0  c:r c:g dur:2 unknown:1 noseparator\nbutton 0,0  c:p\n";
    let level = load(&chars(file));
    let mut floor = Floor::new(FloorType::Button, ActivatingColor::Pink);
    floor.durability = -1;
    assert_eq!(level.get(CellPos { x: 0, y: 0 }, Layer::Floor(())), Some(Layer::Floor(floor)));
}

#[test]
fn parse_line_reads_wall_side_and_flags() {
    let (pos, data, o) = parse_line(&chars("wall -2,3 r c:c closed:false inputbased:true")).unwrap();
    assert_eq!(pos, CellPos { x: -2, y: 3 });
    assert_eq!(o, WallOrientation::Right);
    assert_eq!(data, Layer::Wall(WallData::new(WallType::Normal, ActivatingColor::Cyan, true, true)));
    assert_eq!(parse_line(&chars("wall 1,1")), None);
    assert_eq!(parse_line(&chars("")), None);
    assert_eq!(parse_line(&chars("win 1,2,3")), None);
}

#[test]
fn write_wall_inverts_opened() {
    let mut out: Vec<char> = Vec::new();
    let d = WallData::new(WallType::Normal, ActivatingColor::Red, false, true);
    write_wall(&mut out, CellPos { x: 0, y: -1 }, &d, WallOrientation::Down);
    assert_eq!(text(&out), "wall 0,-1 d c:r closed:false inputbased:false\n");
}

#[test]
fn colours_and_booleans_read_back() {
    assert_eq!(parse_color(&chars("y")), ActivatingColor::Yellow);
    assert_eq!(parse_color(&chars("n")), ActivatingColor::Uncolored);
    assert_eq!(parse_color(&chars("red")), ActivatingColor::Uncolored);
    assert_eq!(parse_bool(&chars("true")), Some(true));
    assert_eq!(parse_bool(&chars("false")), Some(false));
    assert_eq!(parse_bool(&chars("True")), None);
    assert_eq!(parse_bool(&chars("")), None);
}

#[test]
fn integers_parse_like_str_parse() {
    assert_eq!(parse_i32_chars(&chars("-2147483648")), Some(i32::MIN));
    assert_eq!(parse_i32_chars(&chars("2147483647")), Some(i32::MAX));
    assert_eq!(parse_i32_chars(&chars("2147483648")), None);
    assert_eq!(parse_i32_chars(&chars("+17")), Some(17));
    assert_eq!(parse_i32_chars(&chars("-")), None);
    assert_eq!(parse_i32_chars(&chars("")), None);
    assert_eq!(parse_i32_chars(&chars("1 2")), None);
    assert_eq!(parse_i32_chars(&chars("99999999999999999999")), None);
}

#[test]
fn save_lists_keeps_the_given_order() {
    let mut normal = Floor::new(FloorType::Normal, ActivatingColor::Uncolored);
    normal.durability = 1;
    let floors = vec![
        (CellPos { x: 0, y: 0 }, normal),
        (CellPos { x: 2, y: -1 }, Floor::new(FloorType::Button, ActivatingColor::Red)),
    ];
    let wall = Wall {
        down: Some(WallData::new(WallType::Normal, ActivatingColor::Blue, false, true)),
        right: Some(WallData::new(WallType::Normal, ActivatingColor::Green, true, false)),
    };
    let walls = vec![(CellPos { x: 1, y: 1 }, wall)];
    let out = text(&save_lists(&floors, &Vec::new(), &Vec::new(), &walls));
    assert_eq!(
        out,
        "2,0\nfloor 0,0  dur:1 c:n\nbutton 2,-1  dur:-1 c:r\n\n\n\n\n\n\nwall 1,1 d c:b closed:false inputbased:false\nwall 1,1 r c:g closed:true inputbased:true\n"
    );
    let back = load(&chars(&out));
    assert_eq!(back.get(CellPos { x: 1, y: 1 }, Layer::Wall(())), Some(Layer::Wall(wall)));
}

#[test]
fn header_with_only_negative_floors() {
    let mut level = LevelData::new();
    let f = Floor::default(FloorType::Teleport);
    level.insert(CellPos { x: -3, y: -4 }, Layer::Floor(f), WallOrientation::Down);
    assert!(text(&save(&level)).starts_with("-3,-4\n"));
    level.insert(CellPos { x: -7, y: -2 }, Layer::Floor(f), WallOrientation::Down);
    level.insert(
        CellPos { x: 5, y: 5 },
        Layer::Object(Object::default(ObjectType::Box)),
        WallOrientation::Down,
    );
    assert!(text(&save(&level)).starts_with("-3,-2\n"));
}

#[test]
fn wall_flag_that_is_no_boolean_skips_the_line() {
    let file = "0,0\nwall 1,1 r closed:yes\nwall 2,2 d inputbased:1\nwall 3,3 d closed:true inputbased:false\n";
    let level = load(&chars(file));
    assert_eq!(level.get(CellPos { x: 1, y: 1 }, Layer::Wall(())), None);
    assert_eq!(level.get(CellPos { x: 2, y: 2 }, Layer::Wall(())), None);
    assert_eq!(
        level.get(CellPos { x: 3, y: 3 }, Layer::Wall(())),
        Some(Layer::Wall(Wall {
            down: Some(WallData::new(WallType::Normal, ActivatingColor::Uncolored, false, false)),
            right: None,
        }))
    );
    assert_eq!(parse_line(&chars("wall 0,0 r c:r closed:maybe")), None);
}
