//! What to draw: the sprites of a cell's content, and the cells of a frame with
//! the paint preview laid over the level.
use crate::instances::{
    ActivatingColor, CollectibleType, FloorType, Layer, LayerContent, ObjectType, Wall,
};
use crate::cell_map::lists;
use crate::level_data::{CellPos, LevelData, LevelView};
use vstd::prelude::*;

verus! {

/// The sprites the renderer knows.
#[derive(Debug, Clone, Copy, PartialEq, Eq, Hash, Structural)]
pub enum DrawId {
    Player,
    Box,
    TeleBox,
    Floor,
    Floor2,
    Floor3,
    Button,
    Teleport,
    HorizontalWallOpened,
    HorizontalWallClosed,
    VerticalWallOpened,
    VerticalWallClosed,
    Win,
}

/// The sprites of a cell's walls: the right segment drawn vertically, then the
/// bottom one drawn horizontally, each open or closed.
pub open spec fn wall_sprites(w: Wall) -> Seq<(DrawId, ActivatingColor)> {
    (match w.right {
        Some(d) => seq![(if d.opened { DrawId::VerticalWallOpened } else { DrawId::VerticalWallClosed }, d.color)],
        None => Seq::empty(),
    }) + (match w.down {
        Some(d) => seq![(if d.opened { DrawId::HorizontalWallOpened } else { DrawId::HorizontalWallClosed }, d.color)],
        None => Seq::empty(),
    })
}

/// The sprites, with their tint, that show a cell's content. A normal floor has a
/// sprite for durability 1 to 3 only, and shows nothing otherwise.
pub open spec fn content_sprites(c: LayerContent) -> Seq<(DrawId, ActivatingColor)> {
    match c {
        Layer::Object(o) => seq![(match o.object_type {
            ObjectType::Player => DrawId::Player,
            ObjectType::Box => DrawId::Box,
            ObjectType::TeleBox => DrawId::TeleBox,
        }, o.color)],
        Layer::Floor(f) => match f.floor_type {
            FloorType::Normal => if f.durability == 1 {
                seq![(DrawId::Floor, f.color)]
            } else if f.durability == 2 {
                seq![(DrawId::Floor2, f.color)]
            } else if f.durability == 3 {
                seq![(DrawId::Floor3, f.color)]
            } else {
                Seq::empty()
            },
            FloorType::Button => seq![(DrawId::Button, f.color)],
            FloorType::Teleport => seq![(DrawId::Teleport, f.color)],
        },
        Layer::Wall(w) => wall_sprites(w),
        Layer::Collectible(c) => seq![(match c.collectible_type {
            CollectibleType::Win => DrawId::Win,
        }, c.color)],
    }
}

pub fn draw_wall(wall: &Wall) -> (r: Vec<(DrawId, ActivatingColor)>)
    ensures
        r@ == wall_sprites(*wall),
{
    let mut r: Vec<(DrawId, ActivatingColor)> = Vec::new();
    if let Some(wl) = wall.right {
        let id = if wl.opened {
            DrawId::VerticalWallOpened
        } else {
            DrawId::VerticalWallClosed
        };
        r.push((id, wl.color));
    }
    if let Some(wl) = wall.down {
        let id = if wl.opened {
            DrawId::HorizontalWallOpened
        } else {
            DrawId::HorizontalWallClosed
        };
        r.push((id, wl.color));
    }
    assert(r@ =~= wall_sprites(*wall));
    r
}

pub fn draw_content(content: &LayerContent) -> (r: Vec<(DrawId, ActivatingColor)>)
    ensures
        r@ == content_sprites(*content),
{
    let r = match content {
        Layer::Object(obj) => {
            let id = match obj.object_type {
                ObjectType::Player => DrawId::Player,
                ObjectType::Box => DrawId::Box,
                ObjectType::TeleBox => DrawId::TeleBox,
            };
            vec![(id, obj.color)]
        },
        Layer::Floor(flr) => match flr.floor_type {
            FloorType::Normal => {
                if flr.durability == 1 {
                    vec![(DrawId::Floor, flr.color)]
                } else if flr.durability == 2 {
                    vec![(DrawId::Floor2, flr.color)]
                } else if flr.durability == 3 {
                    vec![(DrawId::Floor3, flr.color)]
                } else {
                    Vec::new()
                }
            },
            FloorType::Button => vec![(DrawId::Button, flr.color)],
            FloorType::Teleport => vec![(DrawId::Teleport, flr.color)],
        },
        Layer::Wall(wl) => draw_wall(wl),
        Layer::Collectible(clct) => {
            let id = match clct.collectible_type {
                CollectibleType::Win => DrawId::Win,
            };
            vec![(id, clct.color)]
        },
    };
    assert(r@ =~= content_sprites(*content));
    r
}

/// Some pair of the list is for `pos`.
pub open spec fn has_cell<T>(s: Seq<(CellPos, T)>, pos: CellPos) -> bool {
    exists|i: int| 0 <= i < s.len() && s[i].0 == pos
}

/// Walls drawn under a preview wall: the preview's segments over the stored ones.
pub open spec fn merged(w: Wall, other: Wall) -> Wall {
    Wall {
        right: if other.right is Some { other.right } else { w.right },
        down: if other.down is Some { other.down } else { w.down },
    }
}

/// How one stored entity is drawn: at the preview's cell, a preview of the same
/// kind takes its place, or for walls is merged over it.
pub open spec fn drawn(pos: CellPos, stored: LayerContent, preview: LayerContent, pos_with: CellPos) -> (CellPos, LayerContent) {
    if pos == pos_with {
        match (stored, preview) {
            (Layer::Object(_), Layer::Object(p)) => (pos, Layer::Object(p)),
            (Layer::Floor(_), Layer::Floor(p)) => (pos, Layer::Floor(p)),
            (Layer::Wall(w), Layer::Wall(p)) => (pos, Layer::Wall(merged(w, p))),
            (Layer::Collectible(_), Layer::Collectible(p)) => (pos, Layer::Collectible(p)),
            _ => (pos, stored),
        }
    } else {
        (pos, stored)
    }
}

/// The preview drawn on its own where its layer holds nothing at its cell.
pub open spec fn lone_preview<T>(s: Seq<(CellPos, T)>, kind: Layer, preview: LayerContent, pos_with: CellPos) -> Seq<(CellPos, LayerContent)> {
    if crate::instances::kind_of(preview) == kind && !has_cell(s, pos_with) {
        seq![(pos_with, preview)]
    } else {
        Seq::empty()
    }
}

pub open spec fn drawn_floors(s: Seq<(CellPos, crate::instances::Floor)>, preview: LayerContent, pos_with: CellPos) -> Seq<(CellPos, LayerContent)> {
    s.map_values(|e: (CellPos, crate::instances::Floor)| drawn(e.0, Layer::Floor(e.1), preview, pos_with))
        + lone_preview(s, Layer::Floor(()), preview, pos_with)
}

pub open spec fn drawn_collectibles(s: Seq<(CellPos, crate::instances::Collectible)>, preview: LayerContent, pos_with: CellPos) -> Seq<(CellPos, LayerContent)> {
    s.map_values(|e: (CellPos, crate::instances::Collectible)| drawn(e.0, Layer::Collectible(e.1), preview, pos_with))
        + lone_preview(s, Layer::Collectible(()), preview, pos_with)
}

pub open spec fn drawn_objects(s: Seq<(CellPos, crate::instances::Object)>, preview: LayerContent, pos_with: CellPos) -> Seq<(CellPos, LayerContent)> {
    s.map_values(|e: (CellPos, crate::instances::Object)| drawn(e.0, Layer::Object(e.1), preview, pos_with))
        + lone_preview(s, Layer::Object(()), preview, pos_with)
}

pub open spec fn drawn_walls(s: Seq<(CellPos, Wall)>, preview: LayerContent, pos_with: CellPos) -> Seq<(CellPos, LayerContent)> {
    s.map_values(|e: (CellPos, Wall)| drawn(e.0, Layer::Wall(e.1), preview, pos_with))
        + lone_preview(s, Layer::Wall(()), preview, pos_with)
}

/// The cells of a frame in drawing order: floors, collectibles, objects, walls,
/// each layer followed by the preview if it had no cell to take in that layer.
pub open spec fn draw_plan(
    fs: Seq<(CellPos, crate::instances::Floor)>,
    cs: Seq<(CellPos, crate::instances::Collectible)>,
    os: Seq<(CellPos, crate::instances::Object)>,
    ws: Seq<(CellPos, Wall)>,
    preview: LayerContent,
    pos_with: CellPos,
) -> Seq<(CellPos, LayerContent)> {
    drawn_floors(fs, preview, pos_with) + drawn_collectibles(cs, preview, pos_with)
        + drawn_objects(os, preview, pos_with) + drawn_walls(ws, preview, pos_with)
}

/// `plan` is the frame for `v` when its layers come out in some order.
pub open spec fn plan_of(v: LevelView, preview: LayerContent, pos_with: CellPos, plan: Seq<(CellPos, LayerContent)>) -> bool {
    exists|fs: Seq<(CellPos, crate::instances::Floor)>, cs: Seq<(CellPos, crate::instances::Collectible)>, os: Seq<(CellPos, crate::instances::Object)>, ws: Seq<(CellPos, Wall)>|
        lists(fs, v.floors) && lists(cs, v.collectibles) && lists(os, v.objects) && lists(ws, v.walls)
            && plan == draw_plan(fs, cs, os, ws, preview, pos_with)
}

fn draw_cell(out: &mut Vec<(CellPos, LayerContent)>, pos: CellPos, stored: LayerContent, preview: LayerContent, pos_with: CellPos)
    ensures
        final(out)@ == old(out)@.push(drawn(pos, stored, preview, pos_with)),
{
    if pos == pos_with {
        match (stored, preview) {
            (Layer::Object(_), Layer::Object(p)) => {
                out.push((pos, Layer::Object(p)));
                return ;
            },
            (Layer::Floor(_), Layer::Floor(p)) => {
                out.push((pos, Layer::Floor(p)));
                return ;
            },
            (Layer::Wall(w), Layer::Wall(p)) => {
                let mut content = w;
                content.merge(p);
                out.push((pos, Layer::Wall(content)));
                return ;
            },
            (Layer::Collectible(_), Layer::Collectible(p)) => {
                out.push((pos, Layer::Collectible(p)));
                return ;
            },
            _ => {},
        }
    }
    out.push((pos, stored));
}

impl LevelData {
    /// The cells of a frame, with `data_with` previewed at `pos_with`; see `draw_plan`.
    pub fn draw_with(&self, data_with: LayerContent, pos_with: CellPos) -> (r: Vec<(CellPos, LayerContent)>)
        requires
            self.wf(),
        ensures
            plan_of(self@, data_with, pos_with, r@),
    {
        let floors = self.floors.entries();
        let collectibles = self.collectibles.entries();
        let objects = self.objects.entries();
        let walls = self.walls.entries();
        let mut out: Vec<(CellPos, LayerContent)> = Vec::new();

        let mut consumed = false;
        let mut i: usize = 0;
        let ghost s = floors@;
        while i < floors.len()
            invariant
                i <= s.len(),
                s == floors@,
                out@ == s.subrange(0, i as int).map_values(|e: (CellPos, crate::instances::Floor)| drawn(e.0, Layer::Floor(e.1), data_with, pos_with)),
                consumed == has_cell(s.subrange(0, i as int), pos_with),
            decreases s.len() - i,
        {
            let pos = floors[i].0;
            draw_cell(&mut out, pos, Layer::Floor(floors[i].1), data_with, pos_with);
            if pos == pos_with {
                consumed = true;
            }
            i = i + 1;
            proof { lemma_step(s, i as int, pos_with); }
            assert(out@ =~= s.subrange(0, i as int).map_values(|e: (CellPos, crate::instances::Floor)| drawn(e.0, Layer::Floor(e.1), data_with, pos_with)));
        }
        if !consumed && matches!(data_with, Layer::Floor(_)) {
            out.push((pos_with, data_with));
        }
        proof {
            assert(s.subrange(0, s.len() as int) =~= s);
            assert(out@ =~= drawn_floors(floors@, data_with, pos_with));
        }
        let ghost done1 = out@;

        let mut consumed = false;
        let mut i: usize = 0;
        let ghost s = collectibles@;
        while i < collectibles.len()
            invariant
                i <= s.len(),
                s == collectibles@,
                out@ == done1 + s.subrange(0, i as int).map_values(|e: (CellPos, crate::instances::Collectible)| drawn(e.0, Layer::Collectible(e.1), data_with, pos_with)),
                consumed == has_cell(s.subrange(0, i as int), pos_with),
            decreases s.len() - i,
        {
            let pos = collectibles[i].0;
            draw_cell(&mut out, pos, Layer::Collectible(collectibles[i].1), data_with, pos_with);
            if pos == pos_with {
                consumed = true;
            }
            i = i + 1;
            proof { lemma_step(s, i as int, pos_with); }
            assert(out@ =~= done1 + s.subrange(0, i as int).map_values(|e: (CellPos, crate::instances::Collectible)| drawn(e.0, Layer::Collectible(e.1), data_with, pos_with)));
        }
        if !consumed && matches!(data_with, Layer::Collectible(_)) {
            out.push((pos_with, data_with));
        }
        proof {
            assert(s.subrange(0, s.len() as int) =~= s);
            assert(out@ =~= done1 + drawn_collectibles(collectibles@, data_with, pos_with));
        }
        let ghost done2 = out@;

        let mut consumed = false;
        let mut i: usize = 0;
        let ghost s = objects@;
        while i < objects.len()
            invariant
                i <= s.len(),
                s == objects@,
                out@ == done2 + s.subrange(0, i as int).map_values(|e: (CellPos, crate::instances::Object)| drawn(e.0, Layer::Object(e.1), data_with, pos_with)),
                consumed == has_cell(s.subrange(0, i as int), pos_with),
            decreases s.len() - i,
        {
            let pos = objects[i].0;
            draw_cell(&mut out, pos, Layer::Object(objects[i].1), data_with, pos_with);
            if pos == pos_with {
                consumed = true;
            }
            i = i + 1;
            proof { lemma_step(s, i as int, pos_with); }
            assert(out@ =~= done2 + s.subrange(0, i as int).map_values(|e: (CellPos, crate::instances::Object)| drawn(e.0, Layer::Object(e.1), data_with, pos_with)));
        }
        if !consumed && matches!(data_with, Layer::Object(_)) {
            out.push((pos_with, data_with));
        }
        proof {
            assert(s.subrange(0, s.len() as int) =~= s);
            assert(out@ =~= done2 + drawn_objects(objects@, data_with, pos_with));
        }
        let ghost done3 = out@;

        let mut consumed = false;
        let mut i: usize = 0;
        let ghost s = walls@;
        while i < walls.len()
            invariant
                i <= s.len(),
                s == walls@,
                out@ == done3 + s.subrange(0, i as int).map_values(|e: (CellPos, Wall)| drawn(e.0, Layer::Wall(e.1), data_with, pos_with)),
                consumed == has_cell(s.subrange(0, i as int), pos_with),
            decreases s.len() - i,
        {
            let pos = walls[i].0;
            draw_cell(&mut out, pos, Layer::Wall(walls[i].1), data_with, pos_with);
            if pos == pos_with {
                consumed = true;
            }
            i = i + 1;
            proof { lemma_step(s, i as int, pos_with); }
            assert(out@ =~= done3 + s.subrange(0, i as int).map_values(|e: (CellPos, Wall)| drawn(e.0, Layer::Wall(e.1), data_with, pos_with)));
        }
        if !consumed && matches!(data_with, Layer::Wall(_)) {
            out.push((pos_with, data_with));
        }
        proof {
            assert(s.subrange(0, s.len() as int) =~= s);
            assert(out@ =~= done3 + drawn_walls(walls@, data_with, pos_with));
            assert(out@ =~= draw_plan(floors@, collectibles@, objects@, walls@, data_with, pos_with));
            assert(lists(floors@, self@.floors) && lists(collectibles@, self@.collectibles) && lists(objects@, self@.objects) && lists(walls@, self@.walls) && out@ == draw_plan(floors@, collectibles@, objects@, walls@, data_with, pos_with));
        }
        out
    }
}

proof fn lemma_step<T>(s: Seq<(CellPos, T)>, i: int, pos: CellPos)
    requires
        0 < i <= s.len(),
    ensures
        has_cell(s.subrange(0, i), pos) == (has_cell(s.subrange(0, i - 1), pos) || s[i - 1].0 == pos),
{
    if has_cell(s.subrange(0, i - 1), pos) {
        let t = s.subrange(0, i - 1);
        let j = choose|j: int| 0 <= j < t.len() && t[j].0 == pos;
        assert(s.subrange(0, i)[j].0 == pos);
    }
    if s[i - 1].0 == pos {
        assert(s.subrange(0, i)[i - 1].0 == pos);
    }
    if has_cell(s.subrange(0, i), pos) {
        let t = s.subrange(0, i);
        let j = choose|j: int| 0 <= j < t.len() && t[j].0 == pos;
        if j < i - 1 {
            assert(s.subrange(0, i - 1)[j].0 == pos);
        }
    }
}

} // verus!
