use crate::assoc::{keys_unique, lemma_to_map_dom, lemma_to_map_index, to_map};
use crate::cell_map::{lists, CellMap};
use crate::instances::{
    kind_of, Collectible, Floor, Layer, LayerContent, LayerData, Object, Wall, WallData,
    WallOrientation,
};
use vstd::prelude::*;

verus! {

/// A cell of the unbounded grid.
#[derive(Debug, Clone, Copy, PartialEq, Eq, Hash, Structural)]
pub struct CellPos {
    pub x: i32,
    pub y: i32,
}

/// The grid as maps from cell to entity, one map per layer.
pub struct LevelView {
    pub objects: Map<CellPos, Object>,
    pub floors: Map<CellPos, Floor>,
    pub walls: Map<CellPos, Wall>,
    pub collectibles: Map<CellPos, Collectible>,
}

impl LevelView {
    /// No stored wall is without segments.
    pub open spec fn wf(self) -> bool {
        forall|p: CellPos| #[trigger] self.walls.contains_key(p) ==> !self.walls[p].is_empty()
    }

    pub open spec fn empty() -> LevelView {
        LevelView {
            objects: Map::empty(),
            floors: Map::empty(),
            walls: Map::empty(),
            collectibles: Map::empty(),
        }
    }

    /// The grid after painting `data` onto `pos`: the entity of that kind is replaced;
    /// for a wall, only the segment `orientation` of the cell is set.
    pub open spec fn paint(self, pos: CellPos, data: LayerData, orientation: WallOrientation) -> LevelView {
        match data {
            Layer::Object(o) => LevelView { objects: self.objects.insert(pos, o), ..self },
            Layer::Floor(f) => LevelView { floors: self.floors.insert(pos, f), ..self },
            Layer::Wall(d) => {
                let w = if self.walls.contains_key(pos) {
                    self.walls[pos]
                } else {
                    Wall { down: None, right: None }
                };
                LevelView { walls: self.walls.insert(pos, w.with_segment(d, orientation)), ..self }
            },
            Layer::Collectible(c) => LevelView {
                collectibles: self.collectibles.insert(pos, c),
                ..self
            },
        }
    }

    /// The grid after erasing the entity of kind `layer` at `pos`; for a wall, only the
    /// segment `orientation`, the cell's wall dropping out once it has no segment.
    pub open spec fn erase(self, pos: CellPos, layer: Layer, orientation: WallOrientation) -> LevelView {
        match layer {
            Layer::Object(_) => LevelView { objects: self.objects.remove(pos), ..self },
            Layer::Floor(_) => LevelView { floors: self.floors.remove(pos), ..self },
            Layer::Wall(_) => {
                if self.walls.contains_key(pos) {
                    let w = self.walls[pos].without_segment(orientation);
                    if w.is_empty() {
                        LevelView { walls: self.walls.remove(pos), ..self }
                    } else {
                        LevelView { walls: self.walls.insert(pos, w), ..self }
                    }
                } else {
                    self
                }
            },
            Layer::Collectible(_) => LevelView {
                collectibles: self.collectibles.remove(pos),
                ..self
            },
        }
    }

    /// What the cell `pos` holds in the layer `layer`.
    pub open spec fn content_at(self, pos: CellPos, layer: Layer) -> Option<LayerContent> {
        match layer {
            Layer::Object(_) => if self.objects.contains_key(pos) {
                Some(Layer::Object(self.objects[pos]))
            } else {
                None
            },
            Layer::Floor(_) => if self.floors.contains_key(pos) {
                Some(Layer::Floor(self.floors[pos]))
            } else {
                None
            },
            Layer::Wall(_) => if self.walls.contains_key(pos) {
                Some(Layer::Wall(self.walls[pos]))
            } else {
                None
            },
            Layer::Collectible(_) => if self.collectibles.contains_key(pos) {
                Some(Layer::Collectible(self.collectibles[pos]))
            } else {
                None
            },
        }
    }
}

proof fn lemma_same_walls(a: LevelView, b: LevelView)
    requires
        a.wf(),
        b.walls == a.walls,
    ensures
        b.wf(),
{
    assert forall|p: CellPos| #[trigger] b.walls.contains_key(p) implies !b.walls[p].is_empty() by {
        assert(a.walls.contains_key(p));
    }
}

proof fn lemma_walls_changed(a: LevelView, b: LevelView, pos: CellPos)
    requires
        a.wf(),
        b.walls.contains_key(pos) ==> !b.walls[pos].is_empty(),
        forall|p: CellPos| p != pos ==> (#[trigger] b.walls.contains_key(p) == a.walls.contains_key(p)),
        forall|p: CellPos| p != pos && #[trigger] b.walls.contains_key(p) ==> b.walls[p] == a.walls[p],
    ensures
        b.wf(),
{
    assert forall|p: CellPos| #[trigger] b.walls.contains_key(p) implies !b.walls[p].is_empty() by {
        if p != pos {
            assert(a.walls.contains_key(p));
        }
    }
}

/// The entities of a level, one map from cell to entity per layer.
pub struct LevelData {
    pub objects: CellMap<Object>,
    pub walls: CellMap<Wall>,
    pub floors: CellMap<Floor>,
    pub collectibles: CellMap<Collectible>,
}

impl View for LevelData {
    type V = LevelView;

    open spec fn view(&self) -> LevelView {
        LevelView {
            objects: self.objects@,
            floors: self.floors@,
            walls: self.walls@,
            collectibles: self.collectibles@,
        }
    }
}

impl LevelData {
    pub open spec fn wf(&self) -> bool {
        &&& self.objects.wf()
        &&& self.walls.wf()
        &&& self.floors.wf()
        &&& self.collectibles.wf()
        &&& self@.wf()
    }

    pub fn new() -> (r: LevelData)
        ensures
            r.wf(),
            r@ == LevelView::empty(),
    {
        LevelData {
            objects: CellMap::new(),
            walls: CellMap::new(),
            floors: CellMap::new(),
            collectibles: CellMap::new(),
        }
    }

    /// Paints `data` onto `pos`: replaces the entity of that kind there, or for a wall
    /// sets the one segment `orientation` and keeps the other.
    pub fn insert(&mut self, pos: CellPos, data: LayerData, orientation: WallOrientation)
        requires
            old(self).wf(),
        ensures
            final(self).wf(),
            final(self)@ == old(self)@.paint(pos, data, orientation),
    {
        match data {
            Layer::Object(object) => {
                self.objects.insert(pos, object);
                assert(self.floors == old(self).floors && self.walls == old(self).walls && self.collectibles == old(self).collectibles);
                proof {
                    lemma_same_walls(old(self)@, self@);
                }
            },
            Layer::Floor(floor) => {
                self.floors.insert(pos, floor);
                assert(self.objects == old(self).objects && self.walls == old(self).walls && self.collectibles == old(self).collectibles);
                proof {
                    lemma_same_walls(old(self)@, self@);
                }
            },
            Layer::Wall(wall_data) => {
                let mut wall = match self.walls.get(pos) {
                    Some(w) => w,
                    None => Wall::new(),
                };
                wall.merge_data(wall_data, orientation);
                self.walls.insert(pos, wall);
                proof {
                    lemma_walls_changed(old(self)@, self@, pos);
                }
                assert(self.objects == old(self).objects && self.floors == old(self).floors && self.collectibles == old(self).collectibles);
            },
            Layer::Collectible(collectible) => {
                self.collectibles.insert(pos, collectible);
                assert(self.objects == old(self).objects && self.floors == old(self).floors && self.walls == old(self).walls);
                proof {
                    lemma_same_walls(old(self)@, self@);
                }
            },
        }
    }

    /// Erases the entity of kind `layer` at `pos`; for a wall only the segment
    /// `orientation`, dropping the cell's wall once it has no segment left.
    pub fn remove(&mut self, pos: CellPos, layer: Layer, orientation: WallOrientation)
        requires
            old(self).wf(),
        ensures
            final(self).wf(),
            final(self)@ == old(self)@.erase(pos, layer, orientation),
    {
        match layer {
            Layer::Object(()) => {
                self.objects.remove(pos);
                assert(self.floors == old(self).floors && self.walls == old(self).walls && self.collectibles == old(self).collectibles);
                proof {
                    lemma_same_walls(old(self)@, self@);
                }
            },
            Layer::Floor(()) => {
                self.floors.remove(pos);
                assert(self.objects == old(self).objects && self.walls == old(self).walls && self.collectibles == old(self).collectibles);
                proof {
                    lemma_same_walls(old(self)@, self@);
                }
            },
            Layer::Wall(()) => {
                if let Some(w) = self.walls.get(pos) {
                    let mut wall = w;
                    wall.remove_segment(orientation);
                    if wall.is_empty_wall() {
                        self.walls.remove(pos);
                    } else {
                        self.walls.insert(pos, wall);
                    }
                    proof {
                        lemma_walls_changed(old(self)@, self@, pos);
                    }
                } else {
                    proof {
                        lemma_same_walls(old(self)@, self@);
                    }
                }
                assert(self.objects == old(self).objects && self.floors == old(self).floors && self.collectibles == old(self).collectibles);
            },
            Layer::Collectible(()) => {
                self.collectibles.remove(pos);
                assert(self.objects == old(self).objects && self.floors == old(self).floors && self.walls == old(self).walls);
                proof {
                    lemma_same_walls(old(self)@, self@);
                }
            },
        }
    }

    /// What the cell `pos` holds in the layer `layer`, if anything.
    pub fn get(&self, pos: CellPos, layer: Layer) -> (r: Option<LayerContent>)
        requires
            self.wf(),
        ensures
            r == self@.content_at(pos, layer),
    {
        match layer {
            Layer::Object(()) => match self.objects.get(pos) {
                Some(o) => Some(Layer::Object(o)),
                None => None,
            },
            Layer::Floor(()) => match self.floors.get(pos) {
                Some(f) => Some(Layer::Floor(f)),
                None => None,
            },
            Layer::Wall(()) => match self.walls.get(pos) {
                Some(w) => Some(Layer::Wall(w)),
                None => None,
            },
            Layer::Collectible(()) => match self.collectibles.get(pos) {
                Some(c) => Some(Layer::Collectible(c)),
                None => None,
            },
        }
    }
}

/// What a layer holds, cell by cell, as contents.
pub open spec fn layer_contents(v: LevelView, layer: Layer) -> Map<CellPos, LayerContent> {
    match layer {
        Layer::Object(_) => v.objects.map_values(|o: Object| LayerContent::Object(o)),
        Layer::Floor(_) => v.floors.map_values(|f: Floor| LayerContent::Floor(f)),
        Layer::Wall(_) => v.walls.map_values(|w: Wall| LayerContent::Wall(w)),
        Layer::Collectible(_) => v.collectibles.map_values(|c: Collectible| LayerContent::Collectible(c)),
    }
}

/// Wrapping each value of a listing wraps each value of its map.
proof fn lemma_lists_wrapped<T>(s: Seq<(CellPos, T)>, m: Map<CellPos, T>, f: spec_fn(T) -> LayerContent)
    requires
        lists(s, m),
    ensures
        lists(s.map_values(|e: (CellPos, T)| (e.0, f(e.1))), m.map_values(f)),
{
    let t = s.map_values(|e: (CellPos, T)| (e.0, f(e.1)));
    assert(keys_unique(t));
    assert forall|p: CellPos| #[trigger] to_map(t).contains_key(p) == m.map_values(f).contains_key(p) by {
        lemma_to_map_dom(t, p);
        lemma_to_map_dom(s, p);
        if to_map(t).contains_key(p) {
            let i = choose|i: int| 0 <= i < t.len() && t[i].0 == p;
            assert(s[i].0 == p);
        }
        if m.contains_key(p) {
            let i = choose|i: int| 0 <= i < s.len() && s[i].0 == p;
            assert(t[i].0 == p);
        }
    }
    assert forall|p: CellPos| #[trigger] to_map(t).contains_key(p) implies to_map(t)[p] == m.map_values(f)[p] by {
        lemma_to_map_dom(t, p);
        let i = choose|i: int| 0 <= i < t.len() && t[i].0 == p;
        lemma_to_map_index(t, i);
        lemma_to_map_index(s, i);
    }
    assert(to_map(t) =~= m.map_values(f));
}

impl LevelData {
    /// Every cell of the layer `layer` with what it holds there; each cell once, in
    /// no particular order.
    pub fn iterate(&self, layer: Layer) -> (r: Vec<(CellPos, LayerContent)>)
        requires
            self.wf(),
        ensures
            lists(r@, layer_contents(self@, layer)),
    {
        let mut out: Vec<(CellPos, LayerContent)> = Vec::new();
        match layer {
            Layer::Object(()) => {
                let s = self.objects.entries();
                let mut i: usize = 0;
                while i < s.len()
                    invariant
                        i <= s@.len(),
                        out@ == s@.subrange(0, i as int).map_values(|e: (CellPos, Object)| (e.0, LayerContent::Object(e.1))),
                    decreases s@.len() - i,
                {
                    out.push((s[i].0, LayerContent::Object(s[i].1)));
                    i = i + 1;
                    assert(out@ =~= s@.subrange(0, i as int).map_values(|e: (CellPos, Object)| (e.0, LayerContent::Object(e.1))));
                }
                proof {
                    assert(s@.subrange(0, i as int) =~= s@);
                    lemma_lists_wrapped(s@, self.objects@, |o: Object| LayerContent::Object(o));
                    assert(out@ =~= s@.map_values(|e: (CellPos, Object)| (e.0, (|o: Object| LayerContent::Object(o))(e.1))));
                }
            },
            Layer::Floor(()) => {
                let s = self.floors.entries();
                let mut i: usize = 0;
                while i < s.len()
                    invariant
                        i <= s@.len(),
                        out@ == s@.subrange(0, i as int).map_values(|e: (CellPos, Floor)| (e.0, LayerContent::Floor(e.1))),
                    decreases s@.len() - i,
                {
                    out.push((s[i].0, LayerContent::Floor(s[i].1)));
                    i = i + 1;
                    assert(out@ =~= s@.subrange(0, i as int).map_values(|e: (CellPos, Floor)| (e.0, LayerContent::Floor(e.1))));
                }
                proof {
                    assert(s@.subrange(0, i as int) =~= s@);
                    lemma_lists_wrapped(s@, self.floors@, |f: Floor| LayerContent::Floor(f));
                    assert(out@ =~= s@.map_values(|e: (CellPos, Floor)| (e.0, (|f: Floor| LayerContent::Floor(f))(e.1))));
                }
            },
            Layer::Wall(()) => {
                let s = self.walls.entries();
                let mut i: usize = 0;
                while i < s.len()
                    invariant
                        i <= s@.len(),
                        out@ == s@.subrange(0, i as int).map_values(|e: (CellPos, Wall)| (e.0, LayerContent::Wall(e.1))),
                    decreases s@.len() - i,
                {
                    out.push((s[i].0, LayerContent::Wall(s[i].1)));
                    i = i + 1;
                    assert(out@ =~= s@.subrange(0, i as int).map_values(|e: (CellPos, Wall)| (e.0, LayerContent::Wall(e.1))));
                }
                proof {
                    assert(s@.subrange(0, i as int) =~= s@);
                    lemma_lists_wrapped(s@, self.walls@, |w: Wall| LayerContent::Wall(w));
                    assert(out@ =~= s@.map_values(|e: (CellPos, Wall)| (e.0, (|w: Wall| LayerContent::Wall(w))(e.1))));
                }
            },
            Layer::Collectible(()) => {
                let s = self.collectibles.entries();
                let mut i: usize = 0;
                while i < s.len()
                    invariant
                        i <= s@.len(),
                        out@ == s@.subrange(0, i as int).map_values(|e: (CellPos, Collectible)| (e.0, LayerContent::Collectible(e.1))),
                    decreases s@.len() - i,
                {
                    out.push((s[i].0, LayerContent::Collectible(s[i].1)));
                    i = i + 1;
                    assert(out@ =~= s@.subrange(0, i as int).map_values(|e: (CellPos, Collectible)| (e.0, LayerContent::Collectible(e.1))));
                }
                proof {
                    assert(s@.subrange(0, i as int) =~= s@);
                    lemma_lists_wrapped(s@, self.collectibles@, |c: Collectible| LayerContent::Collectible(c));
                    assert(out@ =~= s@.map_values(|e: (CellPos, Collectible)| (e.0, (|c: Collectible| LayerContent::Collectible(c))(e.1))));
                }
            },
        }
        out
    }
}

/// Painting the two segments of a cell keeps both; erasing the right one keeps the
/// bottom one.
pub proof fn lemma_wall_segments_independent(v: LevelView, pos: CellPos, right: WallData, down: WallData)
    ensures
        ({
            let both = v.paint(pos, Layer::Wall(right), WallOrientation::Right).paint(
                pos,
                Layer::Wall(down),
                WallOrientation::Down,
            );
            let erased = both.erase(pos, Layer::Wall(()), WallOrientation::Right);
            &&& both.walls[pos] == Wall { down: Some(down), right: Some(right) }
            &&& erased.walls.contains_key(pos)
            &&& erased.walls[pos] == Wall { down: Some(down), right: None }
        }),
{
}

/// A second paint of the same kind on a cell replaces the first.
pub proof fn lemma_last_write_wins(v: LevelView, pos: CellPos, first: LayerData, second: LayerData)
    requires
        !(first is Wall),
        kind_of(first) == kind_of(second),
    ensures
        v.paint(pos, first, WallOrientation::Down).paint(pos, second, WallOrientation::Down) == v.paint(
            pos,
            second,
            WallOrientation::Down,
        ),
{
    match (first, second) {
        (Layer::Object(a), Layer::Object(b)) => {
            assert(v.objects.insert(pos, a).insert(pos, b) =~= v.objects.insert(pos, b));
        },
        (Layer::Floor(a), Layer::Floor(b)) => {
            assert(v.floors.insert(pos, a).insert(pos, b) =~= v.floors.insert(pos, b));
        },
        (Layer::Collectible(a), Layer::Collectible(b)) => {
            assert(v.collectibles.insert(pos, a).insert(pos, b) =~= v.collectibles.insert(pos, b));
        },
        _ => {},
    }
}

} // verus!
