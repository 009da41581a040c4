//! The level file: one line per entity, `<name> <x>,<y> <suffix> <key>:<value>...`,
//! after a first line with the largest floor coordinates.
use crate::instances::{
    ActivatingColor, Collectible, CollectibleType, Floor, FloorType, Layer, LayerData, Object,
    ObjectType, Wall, WallData, WallOrientation, WallType,
};
use crate::cell_map::lists;
use crate::level_data::{CellPos, LevelData, LevelView};
use crate::text::{
    chars_eq, copy_range, int_text, join, lemma_terminated_concat, lemma_terminated_one,
    parse_i32, parse_i32_chars, push_all, push_i32, split_chars, split_on, split_once,
    split_once_chars, terminated, views,
};
use vstd::prelude::*;

verus! {

/// The fixed words of the format.
#[derive(Debug, Clone, Copy, PartialEq, Eq, Structural)]
pub enum Word {
    Player,
    Box,
    TeleBox,
    Floor,
    Button,
    Teleport,
    Wall,
    Win,
    ColorKey,
    DurabilityKey,
    ClosedKey,
    InputBasedKey,
    True,
    False,
    RightSide,
    DownSide,
}

pub open spec fn word_text(w: Word) -> Seq<char> {
    match w {
        Word::Player => seq!['p', 'l', 'a', 'y', 'e', 'r'],
        Word::Box => seq!['b', 'o', 'x'],
        Word::TeleBox => seq!['t', 'e', 'l', 'e', 'b', 'o', 'x'],
        Word::Floor => seq!['f', 'l', 'o', 'o', 'r'],
        Word::Button => seq!['b', 'u', 't', 't', 'o', 'n'],
        Word::Teleport => seq!['t', 'e', 'l', 'e', 'p', 'o', 'r', 't'],
        Word::Wall => seq!['w', 'a', 'l', 'l'],
        Word::Win => seq!['w', 'i', 'n'],
        Word::ColorKey => seq!['c'],
        Word::DurabilityKey => seq!['d', 'u', 'r'],
        Word::ClosedKey => seq!['c', 'l', 'o', 's', 'e', 'd'],
        Word::InputBasedKey => seq!['i', 'n', 'p', 'u', 't', 'b', 'a', 's', 'e', 'd'],
        Word::True => seq!['t', 'r', 'u', 'e'],
        Word::False => seq!['f', 'a', 'l', 's', 'e'],
        Word::RightSide => seq!['r'],
        Word::DownSide => seq!['d'],
    }
}

pub fn word(w: Word) -> (r: Vec<char>)
    ensures
        r@ == word_text(w),
{
    let r = match w {
        Word::Player => vec!['p', 'l', 'a', 'y', 'e', 'r'],
        Word::Box => vec!['b', 'o', 'x'],
        Word::TeleBox => vec!['t', 'e', 'l', 'e', 'b', 'o', 'x'],
        Word::Floor => vec!['f', 'l', 'o', 'o', 'r'],
        Word::Button => vec!['b', 'u', 't', 't', 'o', 'n'],
        Word::Teleport => vec!['t', 'e', 'l', 'e', 'p', 'o', 'r', 't'],
        Word::Wall => vec!['w', 'a', 'l', 'l'],
        Word::Win => vec!['w', 'i', 'n'],
        Word::ColorKey => vec!['c'],
        Word::DurabilityKey => vec!['d', 'u', 'r'],
        Word::ClosedKey => vec!['c', 'l', 'o', 's', 'e', 'd'],
        Word::InputBasedKey => vec!['i', 'n', 'p', 'u', 't', 'b', 'a', 's', 'e', 'd'],
        Word::True => vec!['t', 'r', 'u', 'e'],
        Word::False => vec!['f', 'a', 'l', 's', 'e'],
        Word::RightSide => vec!['r'],
        Word::DownSide => vec!['d'],
    };
    assert(r@ =~= word_text(w));
    r
}

/// The letter that stands for a colour.
pub open spec fn color_letter(c: ActivatingColor) -> char {
    match c {
        ActivatingColor::Uncolored => 'n',
        ActivatingColor::Red => 'r',
        ActivatingColor::Blue => 'b',
        ActivatingColor::Green => 'g',
        ActivatingColor::Yellow => 'y',
        ActivatingColor::Cyan => 'c',
        ActivatingColor::Pink => 'p',
    }
}

/// A colour value read back: any text but one of the six letters means no colour.
pub open spec fn color_of_text(v: Seq<char>) -> ActivatingColor {
    if v == seq!['r'] {
        ActivatingColor::Red
    } else if v == seq!['g'] {
        ActivatingColor::Green
    } else if v == seq!['b'] {
        ActivatingColor::Blue
    } else if v == seq!['y'] {
        ActivatingColor::Yellow
    } else if v == seq!['c'] {
        ActivatingColor::Cyan
    } else if v == seq!['p'] {
        ActivatingColor::Pink
    } else {
        ActivatingColor::Uncolored
    }
}

pub open spec fn bool_text(b: bool) -> Seq<char> {
    if b {
        word_text(Word::True)
    } else {
        word_text(Word::False)
    }
}

pub open spec fn object_word(t: ObjectType) -> Word {
    match t {
        ObjectType::Player => Word::Player,
        ObjectType::Box => Word::Box,
        ObjectType::TeleBox => Word::TeleBox,
    }
}

pub open spec fn floor_word(t: FloorType) -> Word {
    match t {
        FloorType::Normal => Word::Floor,
        FloorType::Button => Word::Button,
        FloorType::Teleport => Word::Teleport,
    }
}

pub open spec fn wall_word(t: WallType) -> Word {
    match t {
        WallType::Normal => Word::Wall,
    }
}

pub open spec fn collectible_word(t: CollectibleType) -> Word {
    match t {
        CollectibleType::Win => Word::Win,
    }
}

/// `x,y`.
pub open spec fn pos_token(pos: CellPos) -> Seq<char> {
    int_text(pos.x as int) + seq![','] + int_text(pos.y as int)
}

/// `key:value`.
pub open spec fn prop_token(kv: (Seq<char>, Seq<char>)) -> Seq<char> {
    kv.0 + seq![':'] + kv.1
}

/// The words of one line, which the line separates by single spaces.
pub open spec fn line_tokens(
    name: Seq<char>,
    pos: CellPos,
    suffix: Seq<char>,
    props: Seq<(Seq<char>, Seq<char>)>,
) -> Seq<Seq<char>> {
    seq![name, pos_token(pos), suffix] + props.map_values(|kv: (Seq<char>, Seq<char>)| prop_token(kv))
}

pub open spec fn line_text(
    name: Seq<char>,
    pos: CellPos,
    suffix: Seq<char>,
    props: Seq<(Seq<char>, Seq<char>)>,
) -> Seq<char> {
    join(line_tokens(name, pos, suffix, props), ' ')
}

pub open spec fn color_prop(c: ActivatingColor) -> (Seq<char>, Seq<char>) {
    (word_text(Word::ColorKey), seq![color_letter(c)])
}

pub open spec fn floor_line(pos: CellPos, f: Floor) -> Seq<char> {
    line_text(
        word_text(floor_word(f.floor_type)),
        pos,
        Seq::empty(),
        seq![(word_text(Word::DurabilityKey), int_text(f.durability as int)), color_prop(f.color)],
    )
}

pub open spec fn object_line(pos: CellPos, o: Object) -> Seq<char> {
    line_text(word_text(object_word(o.object_type)), pos, Seq::empty(), seq![color_prop(o.color)])
}

pub open spec fn collectible_line(pos: CellPos, c: Collectible) -> Seq<char> {
    line_text(
        word_text(collectible_word(c.collectible_type)),
        pos,
        Seq::empty(),
        seq![color_prop(c.color)],
    )
}

/// A wall segment's properties; `closed` holds the negation of `opened`.
pub open spec fn wall_props(d: WallData) -> Seq<(Seq<char>, Seq<char>)> {
    seq![
        color_prop(d.color),
        (word_text(Word::ClosedKey), bool_text(!d.opened)),
        (word_text(Word::InputBasedKey), bool_text(d.input_dependent)),
    ]
}

pub open spec fn side_word(o: WallOrientation) -> Word {
    match o {
        WallOrientation::Right => Word::RightSide,
        WallOrientation::Down => Word::DownSide,
    }
}

pub open spec fn wall_line(pos: CellPos, d: WallData, o: WallOrientation) -> Seq<char> {
    line_text(word_text(wall_word(d.wall_type)), pos, word_text(side_word(o)), wall_props(d))
}

pub open spec fn floor_lines(s: Seq<(CellPos, Floor)>) -> Seq<Seq<char>> {
    s.map_values(|e: (CellPos, Floor)| floor_line(e.0, e.1))
}

pub open spec fn object_lines(s: Seq<(CellPos, Object)>) -> Seq<Seq<char>> {
    s.map_values(|e: (CellPos, Object)| object_line(e.0, e.1))
}

pub open spec fn collectible_lines(s: Seq<(CellPos, Collectible)>) -> Seq<Seq<char>> {
    s.map_values(|e: (CellPos, Collectible)| collectible_line(e.0, e.1))
}

/// The lines of one cell's wall: its bottom segment, then its right one.
pub open spec fn wall_entry_lines(pos: CellPos, w: Wall) -> Seq<Seq<char>> {
    (if let Some(d) = w.down {
        seq![wall_line(pos, d, WallOrientation::Down)]
    } else {
        Seq::empty()
    }) + (if let Some(d) = w.right {
        seq![wall_line(pos, d, WallOrientation::Right)]
    } else {
        Seq::empty()
    })
}

pub open spec fn wall_lines(s: Seq<(CellPos, Wall)>) -> Seq<Seq<char>>
    decreases s.len(),
{
    if s.len() == 0 {
        Seq::empty()
    } else {
        wall_lines(s.drop_last()) + wall_entry_lines(s.last().0, s.last().1)
    }
}

/// The largest floor coordinate along x; 0 when there is no floor.
pub open spec fn max_floor_x(s: Seq<(CellPos, Floor)>) -> i32
    decreases s.len(),
{
    if s.len() == 0 {
        0
    } else if s.len() == 1 || s.last().0.x > max_floor_x(s.drop_last()) {
        s.last().0.x
    } else {
        max_floor_x(s.drop_last())
    }
}

/// The largest floor coordinate along y; 0 when there is no floor.
pub open spec fn max_floor_y(s: Seq<(CellPos, Floor)>) -> i32
    decreases s.len(),
{
    if s.len() == 0 {
        0
    } else if s.len() == 1 || s.last().0.y > max_floor_y(s.drop_last()) {
        s.last().0.y
    } else {
        max_floor_y(s.drop_last())
    }
}

/// With at least one floor, the header's values are the largest floor x and the
/// largest floor y: each is reached by some floor and exceeded by none.
pub proof fn lemma_header_is_floor_maximum(s: Seq<(CellPos, Floor)>)
    requires
        s.len() > 0,
    ensures
        exists|i: int| 0 <= i < s.len() && s[i].0.x == max_floor_x(s),
        exists|i: int| 0 <= i < s.len() && s[i].0.y == max_floor_y(s),
        forall|i: int| 0 <= i < s.len() ==> (#[trigger] s[i]).0.x <= max_floor_x(s) && s[i].0.y <= max_floor_y(s),
    decreases s.len(),
{
    let n = s.len() - 1;
    if s.len() == 1 {
        assert(s[0].0.x == max_floor_x(s));
        assert(s[0].0.y == max_floor_y(s));
    } else {
        let t = s.drop_last();
        lemma_header_is_floor_maximum(t);
        assert forall|i: int| 0 <= i < s.len() implies (#[trigger] s[i]).0.x <= max_floor_x(s) && s[i].0.y <= max_floor_y(s) by {
            if i < n {
                assert(t[i] == s[i]);
            }
        }
        if s[n].0.x > max_floor_x(t) {
            assert(s[n].0.x == max_floor_x(s));
        } else {
            let j = choose|j: int| 0 <= j < t.len() && t[j].0.x == max_floor_x(t);
            assert(s[j].0.x == max_floor_x(s));
        }
        if s[n].0.y > max_floor_y(t) {
            assert(s[n].0.y == max_floor_y(s));
        } else {
            let j = choose|j: int| 0 <= j < t.len() && t[j].0.y == max_floor_y(t);
            assert(s[j].0.y == max_floor_y(s));
        }
    }
}

pub open spec fn header_line(s: Seq<(CellPos, Floor)>) -> Seq<char> {
    int_text(max_floor_x(s) as int) + seq![','] + int_text(max_floor_y(s) as int)
}

pub open spec fn blank_pair() -> Seq<Seq<char>> {
    seq![Seq::empty(), Seq::empty()]
}

/// The lines of a saved level: the header; floors; objects; collectibles; walls,
/// with two blank lines between the groups.
pub open spec fn save_lines(
    fs: Seq<(CellPos, Floor)>,
    os: Seq<(CellPos, Object)>,
    cs: Seq<(CellPos, Collectible)>,
    ws: Seq<(CellPos, Wall)>,
) -> Seq<Seq<char>> {
    seq![header_line(fs)] + floor_lines(fs) + blank_pair() + object_lines(os) + blank_pair()
        + collectible_lines(cs) + blank_pair() + wall_lines(ws)
}

pub open spec fn save_text(
    fs: Seq<(CellPos, Floor)>,
    os: Seq<(CellPos, Object)>,
    cs: Seq<(CellPos, Collectible)>,
    ws: Seq<(CellPos, Wall)>,
) -> Seq<char> {
    terminated(save_lines(fs, os, cs, ws))
}

/// `text` is what saving `v` writes when its layers come out in some order.
pub open spec fn saved_as(v: LevelView, text: Seq<char>) -> bool {
    exists|fs: Seq<(CellPos, Floor)>, os: Seq<(CellPos, Object)>, cs: Seq<(CellPos, Collectible)>, ws: Seq<(CellPos, Wall)>|
        lists(fs, v.floors) && lists(os, v.objects) && lists(cs, v.collectibles) && lists(ws, v.walls)
            && text == save_text(fs, os, cs, ws)
}

pub open spec fn prop_views(ps: Seq<(Vec<char>, Vec<char>)>) -> Seq<(Seq<char>, Seq<char>)> {
    ps.map_values(|kv: (Vec<char>, Vec<char>)| (kv.0@, kv.1@))
}

/// Appends one line and its line feed.
fn write_line(
    content: &mut Vec<char>,
    name: &Vec<char>,
    pos: CellPos,
    suffix: &Vec<char>,
    properties: &Vec<(Vec<char>, Vec<char>)>,
)
    ensures
        final(content)@ == old(content)@ + line_text(name@, pos, suffix@, prop_views(properties@))
            + seq!['\n'],
{
    let ghost start = content@;
    push_all(content, name);
    content.push(' ');
    push_i32(content, pos.x);
    content.push(',');
    push_i32(content, pos.y);
    content.push(' ');
    push_all(content, suffix);
    let ghost ps = prop_views(properties@);
    proof {
        let ts = line_tokens(name@, pos, suffix@, ps.subrange(0, 0));
        assert(ts =~= seq![name@, pos_token(pos), suffix@]);
        assert(ts.drop_last() =~= seq![name@, pos_token(pos)]);
        assert(ts.drop_last().drop_last() =~= seq![name@]);
        assert(join(ts.drop_last().drop_last(), ' ') == name@);
        assert(join(ts.drop_last(), ' ') == name@ + seq![' '] + pos_token(pos));
        assert(join(ts, ' ') == name@ + seq![' '] + pos_token(pos) + seq![' '] + suffix@);
        assert(content@ =~= start + join(ts, ' '));
    }
    let mut i: usize = 0;
    while i < properties.len()
        invariant
            i <= properties@.len(),
            ps == prop_views(properties@),
            content@ == start + join(line_tokens(name@, pos, suffix@, ps.subrange(0, i as int)), ' '),
        decreases properties@.len() - i,
    {
        let ghost before = line_tokens(name@, pos, suffix@, ps.subrange(0, i as int));
        content.push(' ');
        push_all(content, &properties[i].0);
        content.push(':');
        push_all(content, &properties[i].1);
        i = i + 1;
        proof {
            let after = line_tokens(name@, pos, suffix@, ps.subrange(0, i as int));
            assert(after =~= before.push(prop_token(ps[i - 1])));
            assert(after.drop_last() =~= before);
            assert(content@ =~= start + join(after, ' '));
        }
    }
    content.push('\n');
    proof {
        assert(ps.subrange(0, properties@.len() as int) =~= ps);
    }
}

impl ActivatingColor {
    /// The letter that the level file writes for the colour.
    pub fn letter(&self) -> (r: char)
        ensures
            r == color_letter(*self),
    {
        match self {
            ActivatingColor::Uncolored => 'n',
            ActivatingColor::Red => 'r',
            ActivatingColor::Blue => 'b',
            ActivatingColor::Green => 'g',
            ActivatingColor::Yellow => 'y',
            ActivatingColor::Cyan => 'c',
            ActivatingColor::Pink => 'p',
        }
    }
}

fn color_text(c: ActivatingColor) -> (r: Vec<char>)
    ensures
        r@ == seq![color_letter(c)],
{
    let letter = c.letter();
    let r = vec![letter];
    assert(r@ =~= seq![color_letter(c)]);
    r
}

fn bool_word(b: bool) -> (r: Vec<char>)
    ensures
        r@ == bool_text(b),
{
    if b {
        word(Word::True)
    } else {
        word(Word::False)
    }
}

fn int_chars(v: i32) -> (r: Vec<char>)
    ensures
        r@ == int_text(v as int),
{
    let mut r: Vec<char> = Vec::new();
    push_i32(&mut r, v);
    assert(r@ =~= int_text(v as int));
    r
}

/// Appends the line of one wall segment; its suffix names the side `orientation`.
pub fn write_wall(contents: &mut Vec<char>, pos: CellPos, wall_data: &WallData, orientation: WallOrientation)
    ensures
        final(contents)@ == old(contents)@ + wall_line(pos, *wall_data, orientation) + seq!['\n'],
{
    let name = match wall_data.wall_type {
        WallType::Normal => word(Word::Wall),
    };
    let suffix = match orientation {
        WallOrientation::Right => word(Word::RightSide),
        WallOrientation::Down => word(Word::DownSide),
    };
    let properties = vec![
        (word(Word::ColorKey), color_text(wall_data.color)),
        (word(Word::ClosedKey), bool_word(!wall_data.opened)),
        (word(Word::InputBasedKey), bool_word(wall_data.input_dependent)),
    ];
    assert(prop_views(properties@) =~= wall_props(*wall_data));
    write_line(contents, &name, pos, &suffix, &properties);
}

fn write_floor(contents: &mut Vec<char>, pos: CellPos, floor: &Floor)
    ensures
        final(contents)@ == old(contents)@ + floor_line(pos, *floor) + seq!['\n'],
{
    let name = match floor.floor_type {
        FloorType::Normal => word(Word::Floor),
        FloorType::Button => word(Word::Button),
        FloorType::Teleport => word(Word::Teleport),
    };
    let suffix: Vec<char> = Vec::new();
    let properties = vec![
        (word(Word::DurabilityKey), int_chars(floor.durability)),
        (word(Word::ColorKey), color_text(floor.color)),
    ];
    assert(prop_views(properties@) =~= seq![
        (word_text(Word::DurabilityKey), int_text(floor.durability as int)),
        color_prop(floor.color),
    ]);
    assert(suffix@ =~= Seq::<char>::empty());
    write_line(contents, &name, pos, &suffix, &properties);
}

fn write_object(contents: &mut Vec<char>, pos: CellPos, object: &Object)
    ensures
        final(contents)@ == old(contents)@ + object_line(pos, *object) + seq!['\n'],
{
    let name = match object.object_type {
        ObjectType::Player => word(Word::Player),
        ObjectType::Box => word(Word::Box),
        ObjectType::TeleBox => word(Word::TeleBox),
    };
    let suffix: Vec<char> = Vec::new();
    let properties = vec![(word(Word::ColorKey), color_text(object.color))];
    assert(prop_views(properties@) =~= seq![color_prop(object.color)]);
    assert(suffix@ =~= Seq::<char>::empty());
    write_line(contents, &name, pos, &suffix, &properties);
}

fn write_collectible(contents: &mut Vec<char>, pos: CellPos, collectible: &Collectible)
    ensures
        final(contents)@ == old(contents)@ + collectible_line(pos, *collectible) + seq!['\n'],
{
    let name = match collectible.collectible_type {
        CollectibleType::Win => word(Word::Win),
    };
    let suffix: Vec<char> = Vec::new();
    let properties = vec![(word(Word::ColorKey), color_text(collectible.color))];
    assert(prop_views(properties@) =~= seq![color_prop(collectible.color)]);
    assert(suffix@ =~= Seq::<char>::empty());
    write_line(contents, &name, pos, &suffix, &properties);
}

pub open spec fn segment_text(pos: CellPos, seg: Option<WallData>, o: WallOrientation) -> Seq<char> {
    match seg {
        Some(d) => wall_line(pos, d, o) + seq!['\n'],
        None => Seq::empty(),
    }
}

proof fn lemma_wall_entry_text(pos: CellPos, w: Wall)
    ensures
        terminated(wall_entry_lines(pos, w)) == segment_text(pos, w.down, WallOrientation::Down)
            + segment_text(pos, w.right, WallOrientation::Right),
{
    let dpart: Seq<Seq<char>> = if let Some(d) = w.down {
        seq![wall_line(pos, d, WallOrientation::Down)]
    } else {
        Seq::empty()
    };
    let rpart: Seq<Seq<char>> = if let Some(d) = w.right {
        seq![wall_line(pos, d, WallOrientation::Right)]
    } else {
        Seq::empty()
    };
    lemma_terminated_concat(dpart, rpart);
    if let Some(d) = w.down {
        lemma_terminated_one(wall_line(pos, d, WallOrientation::Down));
    } else {
        assert(terminated(dpart) =~= Seq::<char>::empty());
    }
    if let Some(d) = w.right {
        lemma_terminated_one(wall_line(pos, d, WallOrientation::Right));
    } else {
        assert(terminated(rpart) =~= Seq::<char>::empty());
    }
}

proof fn lemma_blank_pair_text()
    ensures
        terminated(blank_pair()) == seq!['\n', '\n'],
{
    let b = blank_pair();
    assert(b.drop_last() =~= seq![Seq::<char>::empty()]);
    lemma_terminated_one(Seq::<char>::empty());
    assert(terminated(b) =~= seq!['\n', '\n']);
}

/// The text of a saved level. The layers come out in the order their maps give;
/// blank lines separate the groups.
pub fn save(level_data: &LevelData) -> (r: Vec<char>)
    requires
        level_data.wf(),
    ensures
        saved_as(level_data@, r@),
{
    let floors = level_data.floors.entries();
    let objects = level_data.objects.entries();
    let collectibles = level_data.collectibles.entries();
    let walls = level_data.walls.entries();
    let r = save_lists(&floors, &objects, &collectibles, &walls);
    assert(lists(floors@, level_data@.floors) && lists(objects@, level_data@.objects) && lists(collectibles@, level_data@.collectibles) && lists(walls@, level_data@.walls) && r@ == save_text(floors@, objects@, collectibles@, walls@));
    r
}

#[verifier::rlimit(40)]
/// The text of a level whose layers hold the given entries, in that order: the
/// extent of the floors, then floors, objects, collectibles and wall segments.
pub fn save_lists(
    floors: &Vec<(CellPos, Floor)>,
    objects: &Vec<(CellPos, Object)>,
    collectibles: &Vec<(CellPos, Collectible)>,
    walls: &Vec<(CellPos, Wall)>,
) -> (r: Vec<char>)
    ensures
        r@ == save_text(floors@, objects@, collectibles@, walls@),
{
    let ghost fs = floors@;
    let ghost os = objects@;
    let ghost cs = collectibles@;
    let ghost ws = walls@;
    let mut max_x: i32 = 0;
    let mut max_y: i32 = 0;
    let mut i: usize = 0;
    proof {
        assert(fs.subrange(0, 0) =~= Seq::<(CellPos, Floor)>::empty());
    }
    while i < floors.len()
        invariant
            i <= fs.len(),
            fs == floors@,
            max_x == max_floor_x(fs.subrange(0, i as int)),
            max_y == max_floor_y(fs.subrange(0, i as int)),
        decreases fs.len() - i,
    {
        let pos = floors[i].0;
        proof {
            assert(fs.subrange(0, i + 1).drop_last() =~= fs.subrange(0, i as int));
        }
        if i == 0 || pos.x > max_x {
            max_x = pos.x;
        }
        if i == 0 || pos.y > max_y {
            max_y = pos.y;
        }
        i = i + 1;
    }
    proof {
        assert(fs.subrange(0, fs.len() as int) =~= fs);
    }
    let mut contents: Vec<char> = Vec::new();
    push_i32(&mut contents, max_x);
    contents.push(',');
    push_i32(&mut contents, max_y);
    contents.push('\n');
    let ghost head = seq![header_line(fs)];
    proof {
        lemma_terminated_one(header_line(fs));
        assert(contents@ =~= terminated(head));
    }
    let mut i: usize = 0;
    proof {
        assert(floor_lines(fs.subrange(0, 0)) =~= Seq::<Seq<char>>::empty());
    }
    while i < floors.len()
        invariant
            i <= fs.len(),
            fs == floors@,
            contents@ == terminated(head) + terminated(floor_lines(fs.subrange(0, i as int))),
        decreases fs.len() - i,
    {
        let ghost before = floor_lines(fs.subrange(0, i as int));
        write_floor(&mut contents, floors[i].0, &floors[i].1);
        i = i + 1;
        proof {
            let after = floor_lines(fs.subrange(0, i as int));
            assert(after =~= before.push(floor_line(fs[i - 1].0, fs[i - 1].1)));
            assert(after.drop_last() =~= before);
            assert(contents@ =~= terminated(head) + terminated(after));
        }
    }
    contents.push('\n');
    contents.push('\n');
    let ghost part1 = head + floor_lines(fs) + blank_pair();
    proof {
        assert(fs.subrange(0, fs.len() as int) =~= fs);
        let b = blank_pair();
        lemma_blank_pair_text();
        lemma_terminated_concat(head, floor_lines(fs));
        lemma_terminated_concat(head + floor_lines(fs), b);
        assert(contents@ =~= terminated(part1));
        assert(os.subrange(0, 0) =~= Seq::<(CellPos, Object)>::empty());
        assert(object_lines(os.subrange(0, 0)) =~= Seq::<Seq<char>>::empty());
    }
    let mut i: usize = 0;
    while i < objects.len()
        invariant
            i <= os.len(),
            os == objects@,
            contents@ == terminated(part1) + terminated(object_lines(os.subrange(0, i as int))),
        decreases os.len() - i,
    {
        let ghost before = object_lines(os.subrange(0, i as int));
        write_object(&mut contents, objects[i].0, &objects[i].1);
        i = i + 1;
        proof {
            let after = object_lines(os.subrange(0, i as int));
            assert(after =~= before.push(object_line(os[i - 1].0, os[i - 1].1)));
            assert(after.drop_last() =~= before);
            assert(contents@ =~= terminated(part1) + terminated(after));
        }
    }
    contents.push('\n');
    contents.push('\n');
    let ghost part2 = part1 + object_lines(os) + blank_pair();
    proof {
        assert(os.subrange(0, os.len() as int) =~= os);
        let b = blank_pair();
        lemma_blank_pair_text();
        lemma_terminated_concat(part1, object_lines(os));
        lemma_terminated_concat(part1 + object_lines(os), b);
        assert(contents@ =~= terminated(part2));
        assert(cs.subrange(0, 0) =~= Seq::<(CellPos, Collectible)>::empty());
        assert(collectible_lines(cs.subrange(0, 0)) =~= Seq::<Seq<char>>::empty());
    }
    let mut i: usize = 0;
    while i < collectibles.len()
        invariant
            i <= cs.len(),
            cs == collectibles@,
            contents@ == terminated(part2) + terminated(collectible_lines(cs.subrange(0, i as int))),
        decreases cs.len() - i,
    {
        let ghost before = collectible_lines(cs.subrange(0, i as int));
        write_collectible(&mut contents, collectibles[i].0, &collectibles[i].1);
        i = i + 1;
        proof {
            let after = collectible_lines(cs.subrange(0, i as int));
            assert(after =~= before.push(collectible_line(cs[i - 1].0, cs[i - 1].1)));
            assert(after.drop_last() =~= before);
            assert(contents@ =~= terminated(part2) + terminated(after));
        }
    }
    contents.push('\n');
    contents.push('\n');
    let ghost part3 = part2 + collectible_lines(cs) + blank_pair();
    proof {
        assert(cs.subrange(0, cs.len() as int) =~= cs);
        let b = blank_pair();
        lemma_blank_pair_text();
        lemma_terminated_concat(part2, collectible_lines(cs));
        lemma_terminated_concat(part2 + collectible_lines(cs), b);
        assert(contents@ =~= terminated(part3));
        assert(ws.subrange(0, 0) =~= Seq::<(CellPos, Wall)>::empty());
    }
    let mut i: usize = 0;
    while i < walls.len()
        invariant
            i <= ws.len(),
            ws == walls@,
            contents@ == terminated(part3) + terminated(wall_lines(ws.subrange(0, i as int))),
        decreases ws.len() - i,
    {
        let ghost mid = contents@;
        let pos = walls[i].0;
        let wall = walls[i].1;
        match &wall.down {
            Some(wall_data) => write_wall(&mut contents, pos, wall_data, WallOrientation::Down),
            None => {
                assert(contents@ =~= mid + segment_text(pos, wall.down, WallOrientation::Down));
            },
        }
        let ghost mid2 = contents@;
        match &wall.right {
            Some(wall_data) => write_wall(&mut contents, pos, wall_data, WallOrientation::Right),
            None => {
                assert(contents@ =~= mid2 + segment_text(pos, wall.right, WallOrientation::Right));
            },
        }
        i = i + 1;
        proof {
            let prev = wall_lines(ws.subrange(0, i - 1));
            let entry = wall_entry_lines(pos, wall);
            assert(ws.subrange(0, i as int).drop_last() =~= ws.subrange(0, i - 1));
            assert(wall_lines(ws.subrange(0, i as int)) == prev + entry);
            lemma_terminated_concat(prev, entry);
            lemma_wall_entry_text(pos, wall);
            assert(contents@ =~= terminated(part3) + terminated(wall_lines(ws.subrange(0, i as int))));
        }
    }
    proof {
        assert(ws.subrange(0, ws.len() as int) =~= ws);
        lemma_terminated_concat(part3, wall_lines(ws));
        assert(part3 + wall_lines(ws) =~= save_lines(fs, os, cs, ws));
    }
    contents
}

/// A line without the carriage return that ends it, if any.
pub open spec fn strip_cr(l: Seq<char>) -> Seq<char> {
    if l.len() > 0 && l.last() == '\r' {
        l.drop_last()
    } else {
        l
    }
}

/// The entity a line's first word names, with no colour and default modifiers.
pub open spec fn base_of_name(name: Seq<char>) -> Option<LayerData> {
    if name == word_text(Word::Player) {
        Some(Layer::Object(Object { object_type: ObjectType::Player, color: ActivatingColor::Uncolored }))
    } else if name == word_text(Word::Box) {
        Some(Layer::Object(Object { object_type: ObjectType::Box, color: ActivatingColor::Uncolored }))
    } else if name == word_text(Word::TeleBox) {
        Some(Layer::Object(Object { object_type: ObjectType::TeleBox, color: ActivatingColor::Uncolored }))
    } else if name == word_text(Word::Floor) {
        Some(Layer::Floor(default_floor(FloorType::Normal)))
    } else if name == word_text(Word::Button) {
        Some(Layer::Floor(default_floor(FloorType::Button)))
    } else if name == word_text(Word::Teleport) {
        Some(Layer::Floor(default_floor(FloorType::Teleport)))
    } else if name == word_text(Word::Wall) {
        Some(Layer::Wall(WallData {
            wall_type: WallType::Normal,
            color: ActivatingColor::Uncolored,
            input_dependent: false,
            opened: false,
        }))
    } else if name == word_text(Word::Win) {
        Some(Layer::Collectible(Collectible {
            collectible_type: CollectibleType::Win,
            color: ActivatingColor::Uncolored,
        }))
    } else {
        None
    }
}

pub open spec fn default_floor(t: FloorType) -> Floor {
    Floor { floor_type: t, color: ActivatingColor::Uncolored, durability: crate::instances::NO_DURABILITY }
}

/// `x,y` read back.
pub open spec fn parse_pos(t: Seq<char>) -> Option<CellPos> {
    match split_once(t, ',') {
        Some((a, b)) => match (parse_i32(a), parse_i32(b)) {
            (Some(x), Some(y)) => Some(CellPos { x, y }),
            _ => None,
        },
        None => None,
    }
}

/// A boolean value: `true` or `false`, nothing else.
pub open spec fn bool_of_text(v: Seq<char>) -> Option<bool> {
    if v == word_text(Word::True) {
        Some(true)
    } else if v == word_text(Word::False) {
        Some(false)
    } else {
        None
    }
}

/// The entity with the property `key:value` applied; keys that do not apply to
/// the kind are ignored. A durability that is no integer, or a `closed` or
/// `inputbased` that is neither `true` nor `false`, fails.
pub open spec fn set_prop(d: LayerData, key: Seq<char>, value: Seq<char>) -> Option<LayerData> {
    let is_color = key == word_text(Word::ColorKey);
    match d {
        Layer::Object(o) => Some(
            if is_color {
                Layer::Object(Object { color: color_of_text(value), ..o })
            } else {
                d
            },
        ),
        Layer::Floor(f) => if is_color {
            Some(Layer::Floor(Floor { color: color_of_text(value), ..f }))
        } else if key == word_text(Word::DurabilityKey) {
            match parse_i32(value) {
                Some(n) => Some(Layer::Floor(Floor { durability: n, ..f })),
                None => None,
            }
        } else {
            Some(d)
        },
        Layer::Wall(w) => if is_color {
            Some(Layer::Wall(WallData { color: color_of_text(value), ..w }))
        } else if key == word_text(Word::ClosedKey) {
            match bool_of_text(value) {
                Some(b) => Some(Layer::Wall(WallData { opened: !b, ..w })),
                None => None,
            }
        } else if key == word_text(Word::InputBasedKey) {
            match bool_of_text(value) {
                Some(b) => Some(Layer::Wall(WallData { input_dependent: b, ..w })),
                None => None,
            }
        } else {
            Some(d)
        },
        Layer::Collectible(c) => Some(
            if is_color {
                Layer::Collectible(Collectible { color: color_of_text(value), ..c })
            } else {
                d
            },
        ),
    }
}

/// One property word applied; a word without `:` is ignored.
pub open spec fn apply_prop(d: LayerData, p: Seq<char>) -> Option<LayerData> {
    match split_once(p, ':') {
        Some((k, v)) => set_prop(d, k, v),
        None => Some(d),
    }
}

/// The property words applied in order; `None` once one fails.
pub open spec fn apply_props(d: LayerData, ps: Seq<Seq<char>>) -> Option<LayerData>
    decreases ps.len(),
{
    if ps.len() == 0 {
        Some(d)
    } else {
        match apply_props(d, ps.drop_last()) {
            Some(d2) => apply_prop(d2, ps.last()),
            None => None,
        }
    }
}

/// What one line of a level file paints: the cell, the entity and, for a wall, the
/// segment. Comments, blank lines, unknown names, bad coordinates and bad values
/// give `None`.
pub open spec fn line_record(line: Seq<char>) -> Option<(CellPos, LayerData, WallOrientation)> {
    let l = strip_cr(line);
    if l.len() > 0 && l[0] == '#' {
        None
    } else {
        let toks = split_on(l, ' ');
        match base_of_name(toks[0]) {
            None => None,
            Some(base) => if toks.len() < 2 {
                None
            } else {
                match parse_pos(toks[1]) {
                    None => None,
                    Some(pos) => if base is Wall {
                        if toks.len() < 3 {
                            None
                        } else {
                            let o = if toks[2] == word_text(Word::RightSide) {
                                WallOrientation::Right
                            } else {
                                WallOrientation::Down
                            };
                            match apply_props(base, toks.subrange(3, toks.len() as int)) {
                                Some(d) => Some((pos, d, o)),
                                None => None,
                            }
                        }
                    } else {
                        match apply_props(base, toks.subrange(2, toks.len() as int)) {
                            Some(d) => Some((pos, d, WallOrientation::Down)),
                            None => None,
                        }
                    },
                }
            },
        }
    }
}

pub open spec fn apply_line(v: LevelView, line: Seq<char>) -> LevelView {
    match line_record(line) {
        Some((pos, d, o)) => v.paint(pos, d, o),
        None => v,
    }
}

pub open spec fn fold_lines(v: LevelView, ls: Seq<Seq<char>>) -> LevelView
    decreases ls.len(),
{
    if ls.len() == 0 {
        v
    } else {
        apply_line(fold_lines(v, ls.drop_last()), ls.last())
    }
}

/// The level a text describes: every line after the first painted in order onto
/// an empty grid.
pub open spec fn load_view(text: Seq<char>) -> LevelView {
    fold_lines(LevelView::empty(), split_on(text, '\n').drop_first())
}

/// A colour letter read back; anything else means no colour.
pub fn parse_color(color: &Vec<char>) -> (r: ActivatingColor)
    ensures
        r == color_of_text(color@),
{
    if color.len() != 1 {
        return ActivatingColor::Uncolored;
    }
    let c = color[0];
    assert(color@ =~= seq![c]);
    match c {
        'r' => ActivatingColor::Red,
        'g' => ActivatingColor::Green,
        'b' => ActivatingColor::Blue,
        'y' => ActivatingColor::Yellow,
        'c' => ActivatingColor::Cyan,
        'p' => ActivatingColor::Pink,
        _ => ActivatingColor::Uncolored,
    }
}

/// `true` or `false`; anything else is no boolean.
pub fn parse_bool(b: &Vec<char>) -> (r: Option<bool>)
    ensures
        r == bool_of_text(b@),
{
    if chars_eq(b, &word(Word::True)) {
        Some(true)
    } else if chars_eq(b, &word(Word::False)) {
        Some(false)
    } else {
        None
    }
}

fn strip_cr_chars(l: &Vec<char>) -> (r: Vec<char>)
    ensures
        r@ == strip_cr(l@),
{
    if l.len() > 0 && l[l.len() - 1] == '\r' {
        copy_range(l, 0, l.len() - 1)
    } else {
        let r = copy_range(l, 0, l.len());
        assert(l@.subrange(0, l@.len() as int) =~= l@);
        r
    }
}

fn name_base(name: &Vec<char>) -> (r: Option<LayerData>)
    ensures
        r == base_of_name(name@),
{
    if chars_eq(name, &word(Word::Player)) {
        Some(Layer::Object(Object::default(ObjectType::Player)))
    } else if chars_eq(name, &word(Word::Box)) {
        Some(Layer::Object(Object::default(ObjectType::Box)))
    } else if chars_eq(name, &word(Word::TeleBox)) {
        Some(Layer::Object(Object::default(ObjectType::TeleBox)))
    } else if chars_eq(name, &word(Word::Floor)) {
        Some(Layer::Floor(Floor::default(FloorType::Normal)))
    } else if chars_eq(name, &word(Word::Button)) {
        Some(Layer::Floor(Floor::default(FloorType::Button)))
    } else if chars_eq(name, &word(Word::Teleport)) {
        Some(Layer::Floor(Floor::default(FloorType::Teleport)))
    } else if chars_eq(name, &word(Word::Wall)) {
        Some(Layer::Wall(WallData::default(WallType::Normal)))
    } else if chars_eq(name, &word(Word::Win)) {
        Some(Layer::Collectible(Collectible::default(CollectibleType::Win)))
    } else {
        None
    }
}

fn pos_of_token(t: &Vec<char>) -> (r: Option<CellPos>)
    ensures
        r == parse_pos(t@),
{
    match split_once_chars(t, ',') {
        Some((a, b)) => match (parse_i32_chars(&a), parse_i32_chars(&b)) {
            (Some(x), Some(y)) => Some(CellPos { x, y }),
            _ => None,
        },
        None => None,
    }
}

/// Applies `key:value` to an object.
pub fn init_object(object: &mut Object, key: &Vec<char>, val: &Vec<char>)
    ensures
        set_prop(Layer::Object(*old(object)), key@, val@) == Some(Layer::<Object, Floor, WallData, Collectible>::Object(*final(object))),
{
    if chars_eq(key, &word(Word::ColorKey)) {
        object.color = parse_color(val);
    }
}

/// Applies `key:value` to a floor; false where a durability is no integer.
pub fn init_floor(floor: &mut Floor, key: &Vec<char>, val: &Vec<char>) -> (r: bool)
    ensures
        r ==> set_prop(Layer::Floor(*old(floor)), key@, val@) == Some(Layer::<Object, Floor, WallData, Collectible>::Floor(*final(floor))),
        !r ==> set_prop(Layer::Floor(*old(floor)), key@, val@) is None,
{
    if chars_eq(key, &word(Word::ColorKey)) {
        floor.color = parse_color(val);
        true
    } else if chars_eq(key, &word(Word::DurabilityKey)) {
        match parse_i32_chars(val) {
            Some(n) => {
                floor.durability = n;
                true
            },
            None => false,
        }
    } else {
        true
    }
}

/// Applies `key:value` to a wall segment, `closed` holding the negation of
/// `opened`; false where a flag is neither `true` nor `false`.
pub fn init_wall(wall: &mut WallData, key: &Vec<char>, val: &Vec<char>) -> (r: bool)
    ensures
        r ==> set_prop(Layer::Wall(*old(wall)), key@, val@) == Some(Layer::<Object, Floor, WallData, Collectible>::Wall(*final(wall))),
        !r ==> set_prop(Layer::Wall(*old(wall)), key@, val@) is None,
{
    if chars_eq(key, &word(Word::ColorKey)) {
        wall.color = parse_color(val);
        true
    } else if chars_eq(key, &word(Word::ClosedKey)) {
        match parse_bool(val) {
            Some(b) => {
                wall.opened = !b;
                true
            },
            None => false,
        }
    } else if chars_eq(key, &word(Word::InputBasedKey)) {
        match parse_bool(val) {
            Some(b) => {
                wall.input_dependent = b;
                true
            },
            None => false,
        }
    } else {
        true
    }
}

/// Applies `key:value` to a collectible.
pub fn init_collectible(collectible: &mut Collectible, key: &Vec<char>, val: &Vec<char>)
    ensures
        set_prop(Layer::Collectible(*old(collectible)), key@, val@) == Some(Layer::<Object, Floor, WallData, Collectible>::Collectible(*final(collectible))),
{
    if chars_eq(key, &word(Word::ColorKey)) {
        collectible.color = parse_color(val);
    }
}

fn apply_property(data: LayerData, prop: &Vec<char>) -> (r: Option<LayerData>)
    ensures
        r == apply_prop(data, prop@),
{
    match split_once_chars(prop, ':') {
        None => Some(data),
        Some((key, val)) => match data {
            Layer::Object(mut o) => {
                init_object(&mut o, &key, &val);
                Some(Layer::Object(o))
            },
            Layer::Floor(mut f) => {
                if init_floor(&mut f, &key, &val) {
                    Some(Layer::Floor(f))
                } else {
                    None
                }
            },
            Layer::Wall(mut w) => {
                if init_wall(&mut w, &key, &val) {
                    Some(Layer::Wall(w))
                } else {
                    None
                }
            },
            Layer::Collectible(mut c) => {
                init_collectible(&mut c, &key, &val);
                Some(Layer::Collectible(c))
            },
        },
    }
}

/// Decodes one line of a level file; see `line_record`.
pub fn parse_line(line: &Vec<char>) -> (r: Option<(CellPos, LayerData, WallOrientation)>)
    ensures
        r == line_record(line@),
{
    let l = strip_cr_chars(line);
    if l.len() > 0 && l[0] == '#' {
        return None;
    }
    let toks = split_chars(&l, ' ');
    let ghost ts = views(toks@);
    proof {
        crate::text::lemma_split_nonempty(l@, ' ');
        assert(toks@[0]@ == ts[0]);
    }
    let base = match name_base(&toks[0]) {
        Some(b) => b,
        None => return None,
    };
    if toks.len() < 2 {
        return None;
    }
    assert(toks@[1]@ == ts[1]);
    let pos = match pos_of_token(&toks[1]) {
        Some(p) => p,
        None => return None,
    };
    let mut orientation = WallOrientation::Down;
    let mut first: usize = 2;
    if let Layer::Wall(_) = base {
        if toks.len() < 3 {
            return None;
        }
        assert(toks@[2]@ == ts[2]);
        if chars_eq(&toks[2], &word(Word::RightSide)) {
            orientation = WallOrientation::Right;
        }
        first = 3;
    }
    let mut data = base;
    let mut i: usize = first;
    proof {
        assert(ts.subrange(first as int, first as int) =~= Seq::<Seq<char>>::empty());
        assert(line_record(line@) == match apply_props(base, ts.subrange(first as int, ts.len() as int)) {
            Some(d) => Some((pos, d, orientation)),
            None => None,
        });
    }
    while i < toks.len()
        invariant
            first <= i <= toks@.len(),
            ts == views(toks@),
            line_record(line@) == match apply_props(base, ts.subrange(first as int, ts.len() as int)) {
                Some(d) => Some((pos, d, orientation)),
                None => None,
            },
            apply_props(base, ts.subrange(first as int, i as int)) == Some(data),
        decreases toks@.len() - i,
    {
        proof {
            assert(ts.subrange(first as int, i + 1).drop_last() =~= ts.subrange(first as int, i as int));
            assert(toks@[i as int]@ == ts[i as int]);
        }
        data = match apply_property(data, &toks[i]) {
            Some(d) => d,
            None => {
                proof {
                    let rest = ts.subrange(first as int, toks@.len() as int);
                    assert(rest.subrange(0, i - first + 1) =~= ts.subrange(first as int, i + 1));
                    assert(ts.subrange(first as int, i + 1).last() == ts[i as int]);
                    assert(apply_props(base, rest.subrange(0, i - first + 1)) is None);
                    lemma_props_fail(base, rest, i - first);
                }
                return None;
            },
        };
        i = i + 1;
    }
    proof {
        assert(ts.subrange(first as int, toks@.len() as int) =~= ts.subrange(first as int, i as int));
    }
    Some((pos, data, orientation))
}

/// Once a property fails, the whole list fails.
proof fn lemma_props_fail(d: LayerData, ps: Seq<Seq<char>>, k: int)
    requires
        0 <= k < ps.len(),
        apply_props(d, ps.subrange(0, k + 1)) is None,
    ensures
        apply_props(d, ps) is None,
    decreases ps.len(),
{
    if k + 1 < ps.len() {
        assert(ps.drop_last().subrange(0, k + 1) =~= ps.subrange(0, k + 1));
        lemma_props_fail(d, ps.drop_last(), k);
    } else {
        assert(ps.subrange(0, k + 1) =~= ps);
    }
}

/// Reads a level from its text: lines that cannot be decoded are skipped, and the
/// first line, the floors' extent, is not used.
pub fn load(contents: &Vec<char>) -> (r: LevelData)
    ensures
        r.wf(),
        r@ == load_view(contents@),
{
    let mut level_data = LevelData::new();
    let lines = split_chars(contents, '\n');
    let ghost ls = views(lines@);
    proof {
        crate::text::lemma_split_nonempty(contents@, '\n');
        assert(ls.drop_first().subrange(0, 0) =~= Seq::<Seq<char>>::empty());
    }
    let mut i: usize = 1;
    while i < lines.len()
        invariant
            1 <= i <= lines@.len(),
            ls == views(lines@),
            ls.len() >= 1,
            level_data.wf(),
            level_data@ == fold_lines(LevelView::empty(), ls.drop_first().subrange(0, i - 1)),
        decreases lines@.len() - i,
    {
        proof {
            assert(ls.drop_first().subrange(0, i as int).drop_last() =~= ls.drop_first().subrange(0, i - 1));
            assert(lines@[i as int]@ == ls[i as int]);
        }
        match parse_line(&lines[i]) {
            Some((pos, data, orientation)) => level_data.insert(pos, data, orientation),
            None => {},
        }
        i = i + 1;
    }
    proof {
        assert(ls.drop_first().subrange(0, i - 1) =~= ls.drop_first());
    }
    level_data
}

} // verus!
