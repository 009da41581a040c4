//! Reading a saved level gives back the level.
use crate::assoc::{keys_unique, lemma_to_map_dom, to_map};
use crate::cell_map::lists;
use crate::instances::{
    ActivatingColor, Collectible, Floor, Layer, LayerData, Object, Wall, WallData,
    WallOrientation,
};
use crate::level_data::{CellPos, LevelView};
use crate::serialization::{
    apply_line, apply_prop, apply_props, base_of_name, blank_pair, bool_of_text, bool_text, collectible_line,
    collectible_lines, collectible_word, color_letter, color_of_text, color_prop, default_floor,
    floor_line, floor_lines, floor_word, fold_lines, header_line, line_record, line_text,
    line_tokens, load_view, object_line, object_lines, object_word, parse_pos, pos_token,
    prop_token, save_lines, save_text, saved_as, set_prop, side_word, strip_cr, wall_entry_lines,
    wall_line, wall_lines, wall_props, wall_word, Word, word_text,
};
use crate::text::{
    free_of, int_text, is_first, join, lemma_nat_text, lemma_parse_int_text, lemma_split_join,
    lemma_split_once_at, lemma_split_terminated, split_on,
};
use vstd::prelude::*;

verus! {

/// Digits, lower-case letters and `-`: the characters of words and numbers.
pub open spec fn plain(s: Seq<char>) -> bool {
    forall|i: int| 0 <= i < s.len() ==> ('0' <= #[trigger] s[i] <= '9' || 'a' <= s[i] <= 'z' || s[i] == '-')
}

/// A word of a line: no space, line break, carriage return or `#`.
pub open spec fn clean(s: Seq<char>) -> bool {
    &&& free_of(s, ' ')
    &&& free_of(s, '\n')
    &&& free_of(s, '\r')
    &&& free_of(s, '#')
}

proof fn lemma_plain_free(s: Seq<char>)
    requires
        plain(s),
    ensures
        clean(s),
        free_of(s, ':'),
        free_of(s, ','),
{
    assert forall|i: int| 0 <= i < s.len() implies s[i] != ' ' && s[i] != '\n' && s[i] != '\r'
        && s[i] != '#' && s[i] != ':' && s[i] != ',' by {
        assert('0' <= s[i] <= '9' || 'a' <= s[i] <= 'z' || s[i] == '-');
    }
}

proof fn lemma_int_text_plain(v: int)
    ensures
        plain(int_text(v)),
{
    if v < 0 {
        lemma_nat_text((-v) as nat);
        let t = int_text(v);
        assert forall|i: int| 0 <= i < t.len() implies ('0' <= #[trigger] t[i] <= '9' || 'a' <= t[i] <= 'z'
            || t[i] == '-') by {
            if i > 0 {
                assert(t[i] == crate::text::nat_text((-v) as nat)[i - 1]);
            }
        }
    } else {
        lemma_nat_text(v as nat);
    }
}

proof fn lemma_word_plain(w: Word)
    ensures
        plain(word_text(w)),
        word_text(w).len() > 0,
{
    let t = word_text(w);
    assert forall|i: int| 0 <= i < t.len() implies ('0' <= #[trigger] t[i] <= '9' || 'a' <= t[i] <= 'z'
        || t[i] == '-') by {
        match w {
            Word::Player => {},
            Word::Box => {},
            Word::TeleBox => {},
            Word::Floor => {},
            Word::Button => {},
            Word::Teleport => {},
            Word::Wall => {},
            Word::Win => {},
            Word::ColorKey => {},
            Word::DurabilityKey => {},
            Word::ClosedKey => {},
            Word::InputBasedKey => {},
            Word::True => {},
            Word::False => {},
            Word::RightSide => {},
            Word::DownSide => {},
        }
    }
}

proof fn lemma_letter_plain(c: ActivatingColor)
    ensures
        plain(seq![color_letter(c)]),
{
}

proof fn lemma_bool_plain(b: bool)
    ensures
        plain(bool_text(b)),
{
    lemma_word_plain(Word::True);
    lemma_word_plain(Word::False);
}

/// A join of clean words is free of what they are free of.
proof fn lemma_join_free(ts: Seq<Seq<char>>, c: char)
    requires
        c != ' ',
        forall|i: int| 0 <= i < ts.len() ==> free_of(#[trigger] ts[i], c),
    ensures
        free_of(join(ts, ' '), c),
    decreases ts.len(),
{
    if ts.len() > 1 {
        let init = ts.drop_last();
        assert forall|i: int| 0 <= i < init.len() implies free_of(#[trigger] init[i], c) by {
            assert(init[i] == ts[i]);
        }
        lemma_join_free(init, c);
        assert(free_of(ts[ts.len() - 1], c));
        let j = join(init, ' ') + seq![' '] + ts.last();
        assert forall|i: int| 0 <= i < j.len() implies j[i] != c by {
            if i < join(init, ' ').len() {
            } else if i == join(init, ' ').len() {
            } else {
                assert(j[i] == ts.last()[i - join(init, ' ').len() - 1]);
            }
        }
    } else if ts.len() == 1 {
        assert(free_of(ts[0], c));
    }
}

/// The properties of a line, all made of plain words.
pub open spec fn props_plain(props: Seq<(Seq<char>, Seq<char>)>) -> bool {
    forall|i: int| 0 <= i < props.len() ==> plain((#[trigger] props[i]).0) && plain(props[i].1)
}

proof fn lemma_pos_token(pos: CellPos)
    ensures
        clean(pos_token(pos)),
        parse_pos(pos_token(pos)) == Some(pos),
{
    let a = int_text(pos.x as int);
    let b = int_text(pos.y as int);
    let t = pos_token(pos);
    lemma_int_text_plain(pos.x as int);
    lemma_int_text_plain(pos.y as int);
    lemma_plain_free(a);
    lemma_plain_free(b);
    assert forall|i: int| 0 <= i < t.len() implies t[i] != ' ' && t[i] != '\n' && t[i] != '\r'
        && t[i] != '#' by {
        if i < a.len() {
            assert(t[i] == a[i]);
        } else if i > a.len() {
            assert(t[i] == b[i - a.len() - 1]);
        }
    }
    assert(t.subrange(0, a.len() as int) =~= a);
    assert(is_first(t, ',', a.len() as int));
    lemma_split_once_at(t, ',', a.len() as int);
    assert(t.subrange(a.len() as int + 1, t.len() as int) =~= b);
    lemma_parse_int_text(pos.x);
    lemma_parse_int_text(pos.y);
}

proof fn lemma_prop_token(d: LayerData, kv: (Seq<char>, Seq<char>))
    requires
        plain(kv.0),
        plain(kv.1),
    ensures
        clean(prop_token(kv)),
        apply_prop(d, prop_token(kv)) == set_prop(d, kv.0, kv.1),
{
    let (k, v) = kv;
    let t = prop_token(kv);
    lemma_plain_free(k);
    lemma_plain_free(v);
    assert forall|i: int| 0 <= i < t.len() implies t[i] != ' ' && t[i] != '\n' && t[i] != '\r'
        && t[i] != '#' by {
        if i < k.len() {
            assert(t[i] == k[i]);
        } else if i > k.len() {
            assert(t[i] == v[i - k.len() - 1]);
        }
    }
    assert(t.subrange(0, k.len() as int) =~= k);
    assert(is_first(t, ':', k.len() as int));
    lemma_split_once_at(t, ':', k.len() as int);
    assert(t.subrange(k.len() as int + 1, t.len() as int) =~= v);
}

/// What reading a written line needs: it splits back into its words, carries no
/// carriage return or line break, and does not read as a comment.
proof fn lemma_line_shape(
    name: Seq<char>,
    pos: CellPos,
    suffix: Seq<char>,
    props: Seq<(Seq<char>, Seq<char>)>,
)
    requires
        plain(name),
        name.len() > 0,
        plain(suffix),
        props_plain(props),
    ensures
        ({
            let l = line_text(name, pos, suffix, props);
            let ts = line_tokens(name, pos, suffix, props);
            &&& strip_cr(l) == l
            &&& !(l.len() > 0 && l[0] == '#')
            &&& split_on(l, ' ') == ts
            &&& free_of(l, '\n')
            &&& ts.len() == 3 + props.len()
            &&& ts[0] == name
            &&& ts[1] == pos_token(pos)
            &&& ts[2] == suffix
            &&& forall|i: int| 0 <= i < props.len() ==> #[trigger] ts[3 + i] == prop_token(props[i])
        }),
{
    let ts = line_tokens(name, pos, suffix, props);
    let l = line_text(name, pos, suffix, props);
    lemma_plain_free(name);
    lemma_plain_free(suffix);
    lemma_pos_token(pos);
    assert forall|i: int| 0 <= i < ts.len() implies clean(#[trigger] ts[i]) by {
        if i >= 3 {
            assert(ts[i] == prop_token(props[i - 3]));
            lemma_prop_token(Layer::Object(Object { object_type: crate::instances::ObjectType::Player, color: ActivatingColor::Uncolored }), props[i - 3]);
        }
    }
    assert forall|i: int| 0 <= i < ts.len() implies free_of(#[trigger] ts[i], '\r') by {}
    assert forall|i: int| 0 <= i < ts.len() implies free_of(#[trigger] ts[i], '\n') by {}
    assert forall|i: int| 0 <= i < ts.len() implies free_of(#[trigger] ts[i], '#') by {}
    assert forall|i: int| 0 <= i < ts.len() implies free_of(#[trigger] ts[i], ' ') by {}
    lemma_join_free(ts, '\r');
    lemma_join_free(ts, '\n');
    lemma_join_free(ts, '#');
    lemma_split_join(ts, ' ');
    if l.len() > 0 {
        assert(l[l.len() - 1] != '\r');
        assert(l[0] != '#');
    }
}

proof fn lemma_color_text(c: ActivatingColor)
    ensures
        color_of_text(seq![color_letter(c)]) == c,
{
    let t = seq![color_letter(c)];
    match c {
        ActivatingColor::Uncolored => {
            assert(t != seq!['r'] && t != seq!['g'] && t != seq!['b'] && t != seq!['y'] && t != seq!['c']
                && t != seq!['p']) by {
                assert(t[0] == 'n');
            }
        },
        ActivatingColor::Red => {},
        ActivatingColor::Blue => {
            assert(t != seq!['r'] && t != seq!['g']) by {
                assert(t[0] == 'b');
            }
        },
        ActivatingColor::Green => {
            assert(t != seq!['r']) by {
                assert(t[0] == 'g');
            }
        },
        ActivatingColor::Yellow => {
            assert(t != seq!['r'] && t != seq!['g'] && t != seq!['b']) by {
                assert(t[0] == 'y');
            }
        },
        ActivatingColor::Cyan => {
            assert(t != seq!['r'] && t != seq!['g'] && t != seq!['b'] && t != seq!['y']) by {
                assert(t[0] == 'c');
            }
        },
        ActivatingColor::Pink => {
            assert(t != seq!['r'] && t != seq!['g'] && t != seq!['b'] && t != seq!['y'] && t != seq!['c'])
                by {
                assert(t[0] == 'p');
            }
        },
    }
}

proof fn lemma_bool_text(b: bool)
    ensures
        bool_of_text(bool_text(b)) == Some(b),
{
    if !b {
        assert(bool_text(b).len() != word_text(Word::True).len());
    }
}

/// Two different words differ as text.
proof fn lemma_words_differ(a: Word, b: Word)
    requires
        a != b,
    ensures
        word_text(a) != word_text(b),
{
    let (ta, tb) = (word_text(a), word_text(b));
    if ta.len() == tb.len() {
        assert(ta[0] != tb[0] || ta[1] != tb[1] || ta[2] != tb[2] || ta[3] != tb[3] || ta[4] != tb[4]
            || ta[5] != tb[5]) by {
            match a {
                Word::Player => {},
                Word::Box => {},
                Word::TeleBox => {},
                Word::Floor => {},
                Word::Button => {},
                Word::Teleport => {},
                Word::Wall => {},
                Word::Win => {},
                Word::ColorKey => {},
                Word::DurabilityKey => {},
                Word::ClosedKey => {},
                Word::InputBasedKey => {},
                Word::True => {},
                Word::False => {},
                Word::RightSide => {},
                Word::DownSide => {},
            }
        }
    }
}

proof fn lemma_name_words_differ(w: Word)
    ensures
        forall|v: Word| v != w ==> word_text(v) != word_text(w),
{
    assert forall|v: Word| v != w implies word_text(v) != word_text(w) by {
        lemma_words_differ(v, w);
    }
}

proof fn lemma_empty_prop(d: LayerData)
    ensures
        apply_prop(d, Seq::empty()) == Some(d),
{
    assert(free_of(Seq::<char>::empty(), ':'));
}

pub proof fn lemma_floor_line(pos: CellPos, f: Floor)
    ensures
        line_record(floor_line(pos, f)) == Some((pos, Layer::<Object, Floor, WallData, Collectible>::Floor(f), WallOrientation::Down)),
        free_of(floor_line(pos, f), '\n'),
{
    let name = word_text(floor_word(f.floor_type));
    let dur = (word_text(Word::DurabilityKey), int_text(f.durability as int));
    let props = seq![dur, color_prop(f.color)];
    lemma_word_plain(floor_word(f.floor_type));
    lemma_word_plain(Word::DurabilityKey);
    lemma_word_plain(Word::ColorKey);
    lemma_int_text_plain(f.durability as int);
    lemma_letter_plain(f.color);
    assert(props_plain(props));
    assert(plain(Seq::<char>::empty()));
    lemma_line_shape(name, pos, Seq::empty(), props);
    let ts = line_tokens(name, pos, Seq::empty(), props);
    lemma_name_words_differ(floor_word(f.floor_type));
    let base = Layer::<Object, Floor, WallData, Collectible>::Floor(default_floor(f.floor_type));
    assert(base_of_name(ts[0]) == Some(base));
    lemma_pos_token(pos);
    let ps = ts.subrange(2, 5);
    assert(ps.drop_last() =~= ts.subrange(2, 4));
    assert(ts.subrange(2, 4).drop_last() =~= ts.subrange(2, 3));
    assert(ts.subrange(2, 3).drop_last() =~= Seq::<Seq<char>>::empty());
    lemma_empty_prop(base);
    assert(ts.subrange(2, 3).last() == Seq::<char>::empty());
    assert(apply_props(base, Seq::<Seq<char>>::empty()) == Some(base));
    assert(apply_props(base, ts.subrange(2, 3)) == Some(base));
    assert(ts[3 + 0int] == prop_token(props[0]));
    assert(ts[3 + 1int] == prop_token(props[1]));
    lemma_prop_token(base, dur);
    lemma_words_differ(Word::DurabilityKey, Word::ColorKey);
    lemma_parse_int_text(f.durability);
    let d1 = Layer::<Object, Floor, WallData, Collectible>::Floor(Floor { durability: f.durability, ..default_floor(f.floor_type) });
    assert(apply_props(base, ts.subrange(2, 4)) == Some(d1));
    lemma_prop_token(d1, color_prop(f.color));
    lemma_color_text(f.color);
    assert(apply_props(base, ps) == Some(Layer::<Object, Floor, WallData, Collectible>::Floor(f)));
}

pub proof fn lemma_object_line(pos: CellPos, o: Object)
    ensures
        line_record(object_line(pos, o)) == Some((pos, Layer::<Object, Floor, WallData, Collectible>::Object(o), WallOrientation::Down)),
        free_of(object_line(pos, o), '\n'),
{
    let name = word_text(object_word(o.object_type));
    let props = seq![color_prop(o.color)];
    lemma_word_plain(object_word(o.object_type));
    lemma_word_plain(Word::ColorKey);
    lemma_letter_plain(o.color);
    assert(props_plain(props));
    assert(plain(Seq::<char>::empty()));
    lemma_line_shape(name, pos, Seq::empty(), props);
    let ts = line_tokens(name, pos, Seq::empty(), props);
    lemma_name_words_differ(object_word(o.object_type));
    let base = Layer::<Object, Floor, WallData, Collectible>::Object(
        Object { color: ActivatingColor::Uncolored, ..o },
    );
    assert(base_of_name(ts[0]) == Some(base));
    lemma_pos_token(pos);
    let ps = ts.subrange(2, 4);
    assert(ps.drop_last() =~= ts.subrange(2, 3));
    assert(ts.subrange(2, 3).drop_last() =~= Seq::<Seq<char>>::empty());
    lemma_empty_prop(base);
    assert(ts.subrange(2, 3).last() == Seq::<char>::empty());
    assert(apply_props(base, Seq::<Seq<char>>::empty()) == Some(base));
    assert(apply_props(base, ts.subrange(2, 3)) == Some(base));
    assert(ts[3 + 0int] == prop_token(props[0]));
    lemma_prop_token(base, color_prop(o.color));
    lemma_color_text(o.color);
    assert(apply_props(base, ps) == Some(Layer::<Object, Floor, WallData, Collectible>::Object(o)));
}

pub proof fn lemma_collectible_line(pos: CellPos, c: Collectible)
    ensures
        line_record(collectible_line(pos, c)) == Some((pos, Layer::<Object, Floor, WallData, Collectible>::Collectible(c), WallOrientation::Down)),
        free_of(collectible_line(pos, c), '\n'),
{
    let name = word_text(collectible_word(c.collectible_type));
    let props = seq![color_prop(c.color)];
    lemma_word_plain(collectible_word(c.collectible_type));
    lemma_word_plain(Word::ColorKey);
    lemma_letter_plain(c.color);
    assert(props_plain(props));
    assert(plain(Seq::<char>::empty()));
    lemma_line_shape(name, pos, Seq::empty(), props);
    let ts = line_tokens(name, pos, Seq::empty(), props);
    lemma_name_words_differ(collectible_word(c.collectible_type));
    let base = Layer::<Object, Floor, WallData, Collectible>::Collectible(
        Collectible { color: ActivatingColor::Uncolored, ..c },
    );
    assert(base_of_name(ts[0]) == Some(base));
    lemma_pos_token(pos);
    let ps = ts.subrange(2, 4);
    assert(ps.drop_last() =~= ts.subrange(2, 3));
    assert(ts.subrange(2, 3).drop_last() =~= Seq::<Seq<char>>::empty());
    lemma_empty_prop(base);
    assert(ts.subrange(2, 3).last() == Seq::<char>::empty());
    assert(apply_props(base, Seq::<Seq<char>>::empty()) == Some(base));
    assert(apply_props(base, ts.subrange(2, 3)) == Some(base));
    assert(ts[3 + 0int] == prop_token(props[0]));
    lemma_prop_token(base, color_prop(c.color));
    lemma_color_text(c.color);
    assert(apply_props(base, ps) == Some(Layer::<Object, Floor, WallData, Collectible>::Collectible(c)));
}

pub proof fn lemma_wall_line(pos: CellPos, d: WallData, o: WallOrientation)
    ensures
        line_record(wall_line(pos, d, o)) == Some((pos, Layer::<Object, Floor, WallData, Collectible>::Wall(d), o)),
        free_of(wall_line(pos, d, o), '\n'),
{
    let name = word_text(wall_word(d.wall_type));
    let props = wall_props(d);
    lemma_word_plain(wall_word(d.wall_type));
    lemma_word_plain(side_word(o));
    lemma_word_plain(Word::ColorKey);
    lemma_word_plain(Word::ClosedKey);
    lemma_word_plain(Word::InputBasedKey);
    lemma_letter_plain(d.color);
    lemma_bool_plain(!d.opened);
    lemma_bool_plain(d.input_dependent);
    assert(props_plain(props));
    lemma_line_shape(name, pos, word_text(side_word(o)), props);
    let ts = line_tokens(name, pos, word_text(side_word(o)), props);
    lemma_name_words_differ(wall_word(d.wall_type));
    let base = Layer::<Object, Floor, WallData, Collectible>::Wall(
        WallData { color: ActivatingColor::Uncolored, input_dependent: false, opened: false, ..d },
    );
    assert(base_of_name(ts[0]) == Some(base));
    lemma_pos_token(pos);
    lemma_words_differ(Word::DownSide, Word::RightSide);
    assert((ts[2] == word_text(Word::RightSide)) == (o == WallOrientation::Right));
    let ps = ts.subrange(3, 6);
    assert(ps.drop_last() =~= ts.subrange(3, 5));
    assert(ts.subrange(3, 5).drop_last() =~= ts.subrange(3, 4));
    assert(ts.subrange(3, 4).drop_last() =~= Seq::<Seq<char>>::empty());
    assert(apply_props(base, Seq::<Seq<char>>::empty()) == Some(base));
    assert(ts[3 + 0int] == prop_token(props[0]));
    assert(ts[3 + 1int] == prop_token(props[1]));
    assert(ts[3 + 2int] == prop_token(props[2]));
    lemma_words_differ(Word::ClosedKey, Word::ColorKey);
    lemma_words_differ(Word::InputBasedKey, Word::ColorKey);
    lemma_words_differ(Word::InputBasedKey, Word::ClosedKey);
    lemma_prop_token(base, props[0]);
    lemma_color_text(d.color);
    let d1 = Layer::<Object, Floor, WallData, Collectible>::Wall(
        WallData { input_dependent: false, opened: false, ..d },
    );
    assert(apply_props(base, ts.subrange(3, 4)) == Some(d1));
    lemma_prop_token(d1, props[1]);
    lemma_bool_text(!d.opened);
    let d2 = Layer::<Object, Floor, WallData, Collectible>::Wall(WallData { input_dependent: false, ..d });
    assert(apply_props(base, ts.subrange(3, 5)) == Some(d2));
    lemma_prop_token(d2, props[2]);
    lemma_bool_text(d.input_dependent);
    assert(apply_props(base, ps) == Some(Layer::<Object, Floor, WallData, Collectible>::Wall(d)));
}

proof fn lemma_fold_concat(v: LevelView, a: Seq<Seq<char>>, b: Seq<Seq<char>>)
    ensures
        fold_lines(v, a + b) == fold_lines(fold_lines(v, a), b),
    decreases b.len(),
{
    if b.len() == 0 {
        assert(a + b =~= a);
    } else {
        lemma_fold_concat(v, a, b.drop_last());
        assert((a + b).drop_last() =~= a + b.drop_last());
    }
}

/// A blank line paints nothing.
proof fn lemma_blank_line(v: LevelView)
    ensures
        apply_line(v, Seq::empty()) == v,
{
    let e = Seq::<char>::empty();
    assert(split_on(e, ' ')[0] == e);
    assert forall|w: Word| word_text(w) != e by {
        lemma_word_plain(w);
    }
    assert(base_of_name(e) is None);
}

proof fn lemma_blank_pair(v: LevelView)
    ensures
        fold_lines(v, blank_pair()) == v,
{
    let b = blank_pair();
    assert(b.drop_last() =~= seq![Seq::<char>::empty()]);
    assert(seq![Seq::<char>::empty()].drop_last() =~= Seq::<Seq<char>>::empty());
    lemma_blank_line(v);
    assert(fold_lines(v, Seq::<Seq<char>>::empty()) == v);
    assert(fold_lines(v, seq![Seq::<char>::empty()]) == v);
}

proof fn lemma_fold_floors(v: LevelView, s: Seq<(CellPos, Floor)>)
    requires
        v.floors == Map::<CellPos, Floor>::empty(),
    ensures
        fold_lines(v, floor_lines(s)) == (LevelView { floors: to_map(s), ..v }),
    decreases s.len(),
{
    if s.len() == 0 {
        assert(floor_lines(s) =~= Seq::<Seq<char>>::empty());
    } else {
        lemma_fold_floors(v, s.drop_last());
        assert(floor_lines(s).drop_last() =~= floor_lines(s.drop_last()));
        lemma_floor_line(s.last().0, s.last().1);
    }
}

proof fn lemma_fold_objects(v: LevelView, s: Seq<(CellPos, Object)>)
    requires
        v.objects == Map::<CellPos, Object>::empty(),
    ensures
        fold_lines(v, object_lines(s)) == (LevelView { objects: to_map(s), ..v }),
    decreases s.len(),
{
    if s.len() == 0 {
        assert(object_lines(s) =~= Seq::<Seq<char>>::empty());
    } else {
        lemma_fold_objects(v, s.drop_last());
        assert(object_lines(s).drop_last() =~= object_lines(s.drop_last()));
        lemma_object_line(s.last().0, s.last().1);
    }
}

proof fn lemma_fold_collectibles(v: LevelView, s: Seq<(CellPos, Collectible)>)
    requires
        v.collectibles == Map::<CellPos, Collectible>::empty(),
    ensures
        fold_lines(v, collectible_lines(s)) == (LevelView { collectibles: to_map(s), ..v }),
    decreases s.len(),
{
    if s.len() == 0 {
        assert(collectible_lines(s) =~= Seq::<Seq<char>>::empty());
    } else {
        lemma_fold_collectibles(v, s.drop_last());
        assert(collectible_lines(s).drop_last() =~= collectible_lines(s.drop_last()));
        lemma_collectible_line(s.last().0, s.last().1);
    }
}

/// The lines of one cell's wall, read onto a grid without a wall there, put that
/// wall back.
proof fn lemma_fold_wall_entry(u: LevelView, pos: CellPos, w: Wall)
    requires
        !u.walls.contains_key(pos),
        !w.is_empty(),
    ensures
        fold_lines(u, wall_entry_lines(pos, w)) == (LevelView { walls: u.walls.insert(pos, w), ..u }),
{
    let e = wall_entry_lines(pos, w);
    let none = Wall { down: None, right: None };
    assert(fold_lines(u, Seq::<Seq<char>>::empty()) == u);
    match (w.down, w.right) {
        (Some(dd), Some(rd)) => {
            let ld = wall_line(pos, dd, WallOrientation::Down);
            let lr = wall_line(pos, rd, WallOrientation::Right);
            assert(e =~= seq![ld, lr]);
            assert(e.drop_last() =~= seq![ld]);
            assert(seq![ld].drop_last() =~= Seq::<Seq<char>>::empty());
            lemma_wall_line(pos, dd, WallOrientation::Down);
            lemma_wall_line(pos, rd, WallOrientation::Right);
            let u1 = LevelView { walls: u.walls.insert(pos, none.with_segment(dd, WallOrientation::Down)), ..u };
            assert(seq![ld].last() == ld);
            assert(fold_lines(u, seq![ld]) == u1);
            assert(u1.walls.contains_key(pos));
            assert(u1.walls[pos].with_segment(rd, WallOrientation::Right) == w);
            assert(u1.walls.insert(pos, w) =~= u.walls.insert(pos, w));
            assert(e.last() == lr);
        },
        (Some(dd), None) => {
            let ld = wall_line(pos, dd, WallOrientation::Down);
            assert(e =~= seq![ld]);
            assert(e.drop_last() =~= Seq::<Seq<char>>::empty());
            lemma_wall_line(pos, dd, WallOrientation::Down);
        },
        (None, Some(rd)) => {
            let lr = wall_line(pos, rd, WallOrientation::Right);
            assert(e =~= seq![lr]);
            assert(e.drop_last() =~= Seq::<Seq<char>>::empty());
            lemma_wall_line(pos, rd, WallOrientation::Right);
        },
        (None, None) => {},
    }
}

proof fn lemma_fold_walls(v: LevelView, s: Seq<(CellPos, Wall)>)
    requires
        v.walls == Map::<CellPos, Wall>::empty(),
        keys_unique(s),
        forall|i: int| 0 <= i < s.len() ==> !(#[trigger] s[i]).1.is_empty(),
    ensures
        fold_lines(v, wall_lines(s)) == (LevelView { walls: to_map(s), ..v }),
    decreases s.len(),
{
    if s.len() > 0 {
        let init = s.drop_last();
        assert forall|i: int| 0 <= i < init.len() implies !(#[trigger] init[i]).1.is_empty() by {
            assert(init[i] == s[i]);
        }
        lemma_fold_walls(v, init);
        let last = s.last();
        assert(!s[s.len() - 1].1.is_empty());
        lemma_to_map_dom(init, last.0);
        assert(!to_map(init).contains_key(last.0)) by {
            if to_map(init).contains_key(last.0) {
                let j = choose|j: int| 0 <= j < init.len() && init[j].0 == last.0;
                assert(s[j].0 == s[s.len() - 1].0);
            }
        }
        lemma_fold_concat(v, wall_lines(init), wall_entry_lines(last.0, last.1));
        lemma_fold_wall_entry(LevelView { walls: to_map(init), ..v }, last.0, last.1);
    } else {
        assert(to_map(s) =~= Map::<CellPos, Wall>::empty());
    }
}

/// Every written line is free of line breaks.
pub open spec fn lines_free(ls: Seq<Seq<char>>) -> bool {
    forall|i: int| 0 <= i < ls.len() ==> free_of(#[trigger] ls[i], '\n')
}

proof fn lemma_lines_free_concat(a: Seq<Seq<char>>, b: Seq<Seq<char>>)
    requires
        lines_free(a),
        lines_free(b),
    ensures
        lines_free(a + b),
{
    assert forall|i: int| 0 <= i < (a + b).len() implies free_of(#[trigger] (a + b)[i], '\n') by {
        if i < a.len() {
            assert((a + b)[i] == a[i]);
        } else {
            assert((a + b)[i] == b[i - a.len()]);
        }
    }
}

proof fn lemma_wall_lines_free(s: Seq<(CellPos, Wall)>)
    ensures
        lines_free(wall_lines(s)),
    decreases s.len(),
{
    if s.len() > 0 {
        lemma_wall_lines_free(s.drop_last());
        let (pos, w) = s.last();
        let e = wall_entry_lines(pos, w);
        if let Some(d) = w.down {
            lemma_wall_line(pos, d, WallOrientation::Down);
        }
        if let Some(d) = w.right {
            lemma_wall_line(pos, d, WallOrientation::Right);
        }
        assert(lines_free(e));
        lemma_lines_free_concat(wall_lines(s.drop_last()), e);
    }
}

proof fn lemma_save_lines_free(
    fs: Seq<(CellPos, Floor)>,
    os: Seq<(CellPos, Object)>,
    cs: Seq<(CellPos, Collectible)>,
    ws: Seq<(CellPos, Wall)>,
)
    ensures
        lines_free(save_lines(fs, os, cs, ws)),
{
    let h = header_line(fs);
    let ax = int_text(crate::serialization::max_floor_x(fs) as int);
    let ay = int_text(crate::serialization::max_floor_y(fs) as int);
    lemma_int_text_plain(crate::serialization::max_floor_x(fs) as int);
    lemma_int_text_plain(crate::serialization::max_floor_y(fs) as int);
    lemma_plain_free(ax);
    lemma_plain_free(ay);
    assert forall|i: int| 0 <= i < h.len() implies h[i] != '\n' by {
        if i < ax.len() {
            assert(h[i] == ax[i]);
        } else if i > ax.len() {
            assert(h[i] == ay[i - ax.len() - 1]);
        }
    }
    let f = floor_lines(fs);
    assert forall|i: int| 0 <= i < f.len() implies free_of(#[trigger] f[i], '\n') by {
        lemma_floor_line(fs[i].0, fs[i].1);
    }
    let o = object_lines(os);
    assert forall|i: int| 0 <= i < o.len() implies free_of(#[trigger] o[i], '\n') by {
        lemma_object_line(os[i].0, os[i].1);
    }
    let c = collectible_lines(cs);
    assert forall|i: int| 0 <= i < c.len() implies free_of(#[trigger] c[i], '\n') by {
        lemma_collectible_line(cs[i].0, cs[i].1);
    }
    let b = blank_pair();
    assert(lines_free(b));
    lemma_wall_lines_free(ws);
    assert(lines_free(seq![h]));
    lemma_lines_free_concat(seq![h], f);
    lemma_lines_free_concat(seq![h] + f, b);
    lemma_lines_free_concat(seq![h] + f + b, o);
    lemma_lines_free_concat(seq![h] + f + b + o, b);
    lemma_lines_free_concat(seq![h] + f + b + o + b, c);
    lemma_lines_free_concat(seq![h] + f + b + o + b + c, b);
    lemma_lines_free_concat(seq![h] + f + b + o + b + c + b, wall_lines(ws));
}

/// Reading back what `save` wrote gives the same level: every cell holds the same
/// object, floor, wall segments and collectible as before, whatever order the
/// layers were written in.
pub proof fn lemma_round_trip(v: LevelView, text: Seq<char>)
    requires
        v.wf(),
        saved_as(v, text),
    ensures
        load_view(text) == v,
{
    let (fs, os, cs, ws) = choose|fs: Seq<(CellPos, Floor)>, os: Seq<(CellPos, Object)>, cs: Seq<(CellPos, Collectible)>, ws: Seq<(CellPos, Wall)>|
        lists(fs, v.floors) && lists(os, v.objects) && lists(cs, v.collectibles) && lists(ws, v.walls)
            && text == save_text(fs, os, cs, ws);
    let ls = save_lines(fs, os, cs, ws);
    lemma_save_lines_free(fs, os, cs, ws);
    lemma_split_terminated(ls);
    let f = floor_lines(fs);
    let o = object_lines(os);
    let c = collectible_lines(cs);
    let w = wall_lines(ws);
    let b = blank_pair();
    let body = f + b + o + b + c + b + w;
    assert(ls.push(Seq::empty()).drop_first() =~= body.push(Seq::empty()));
    assert(body.push(Seq::empty()).drop_last() =~= body);
    let e = LevelView::empty();
    lemma_blank_line(fold_lines(e, body));
    lemma_fold_concat(e, f + b + o + b + c + b, w);
    lemma_fold_concat(e, f + b + o + b + c, b);
    lemma_fold_concat(e, f + b + o + b, c);
    lemma_fold_concat(e, f + b + o, b);
    lemma_fold_concat(e, f + b, o);
    lemma_fold_concat(e, f, b);
    lemma_fold_floors(e, fs);
    let v1 = LevelView { floors: to_map(fs), ..e };
    lemma_blank_pair(v1);
    lemma_fold_objects(v1, os);
    let v2 = LevelView { objects: to_map(os), ..v1 };
    lemma_blank_pair(v2);
    lemma_fold_collectibles(v2, cs);
    let v3 = LevelView { collectibles: to_map(cs), ..v2 };
    lemma_blank_pair(v3);
    assert forall|i: int| 0 <= i < ws.len() implies !(#[trigger] ws[i]).1.is_empty() by {
        crate::assoc::lemma_to_map_index(ws, i);
    }
    lemma_fold_walls(v3, ws);
}

/// A line that does not decode leaves the loaded level as the other lines make it.
pub proof fn lemma_skipped_line(v: LevelView, before: Seq<Seq<char>>, bad: Seq<char>, after: Seq<Seq<char>>)
    requires
        line_record(bad) is None,
    ensures
        fold_lines(v, before + seq![bad] + after) == fold_lines(v, before + after),
{
    lemma_fold_concat(v, before + seq![bad], after);
    lemma_fold_concat(v, before, after);
    lemma_fold_concat(v, before, seq![bad]);
    assert(seq![bad].drop_last() =~= Seq::<Seq<char>>::empty());
    assert(fold_lines(fold_lines(v, before), Seq::<Seq<char>>::empty()) == fold_lines(v, before));
}

} // verus!
