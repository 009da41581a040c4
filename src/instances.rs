use vstd::prelude::*;

verus! {

/// The tag that links activators and activated entities; it only affects how an
/// entity is drawn and written.
#[derive(Debug, Clone, Copy, PartialEq, Eq, Structural)]
pub enum ActivatingColor {
    Uncolored,
    Red,
    Blue,
    Green,
    Yellow,
    Cyan,
    Pink,
}

/// The four kinds of entity a cell can carry, generic over the payload of each kind.
/// With the default payloads it names a kind only.
#[derive(Debug, Clone, Copy, PartialEq, Eq, Structural)]
pub enum Layer<O = (), F = (), W = (), C = ()> {
    Object(O),
    Floor(F),
    Wall(W),
    Collectible(C),
}

/// A fully configured paint tool: one entity, with a single wall segment for walls.
pub type LayerData = Layer<Object, Floor, WallData, Collectible>;

/// An entity as a cell holds it: for walls, both segments of the cell.
pub type LayerContent = Layer<Object, Floor, Wall, Collectible>;

#[derive(Debug, Clone, Copy, PartialEq, Eq, Structural)]
pub enum ObjectType {
    Player,
    Box,
    TeleBox,
}

#[derive(Debug, Clone, Copy, PartialEq, Eq, Structural)]
pub struct Object {
    pub object_type: ObjectType,
    pub color: ActivatingColor,
}

impl Object {
    pub fn new(object_type: ObjectType, color: ActivatingColor) -> (r: Object)
        ensures
            r == (Object { object_type, color }),
    {
        Object { object_type, color }
    }

    pub fn default(object_type: ObjectType) -> (r: Object)
        ensures
            r == (Object { object_type, color: ActivatingColor::Uncolored }),
    {
        Object { object_type, color: ActivatingColor::Uncolored }
    }
}

#[derive(Debug, Clone, Copy, PartialEq, Eq, Structural)]
pub enum FloorType {
    Normal,
    Button,
    Teleport,
}

/// The durability that floors other than `Normal` carry; it means nothing.
pub const NO_DURABILITY: i32 = -1;

#[derive(Debug, Clone, Copy, PartialEq, Eq, Structural)]
pub struct Floor {
    pub floor_type: FloorType,
    pub color: ActivatingColor,
    /// Meaningful for `Normal` floors only.
    pub durability: i32,
}

impl Floor {
    pub fn new(floor_type: FloorType, color: ActivatingColor) -> (r: Floor)
        ensures
            r == (Floor { floor_type, color, durability: NO_DURABILITY }),
    {
        Floor { floor_type, color, durability: NO_DURABILITY }
    }

    pub fn default(floor_type: FloorType) -> (r: Floor)
        ensures
            r == (Floor { floor_type, color: ActivatingColor::Uncolored, durability: NO_DURABILITY }),
    {
        Floor { floor_type, color: ActivatingColor::Uncolored, durability: NO_DURABILITY }
    }
}

#[derive(Debug, Clone, Copy, PartialEq, Eq, Structural)]
pub enum CollectibleType {
    Win,
}

#[derive(Debug, Clone, Copy, PartialEq, Eq, Structural)]
pub struct Collectible {
    pub collectible_type: CollectibleType,
    pub color: ActivatingColor,
}

impl Collectible {
    pub fn new(collectible_type: CollectibleType, color: ActivatingColor) -> (r: Collectible)
        ensures
            r == (Collectible { collectible_type, color }),
    {
        Collectible { collectible_type, color }
    }

    pub fn default(collectible_type: CollectibleType) -> (r: Collectible)
        ensures
            r == (Collectible { collectible_type, color: ActivatingColor::Uncolored }),
    {
        Collectible { collectible_type, color: ActivatingColor::Uncolored }
    }
}

#[derive(Debug, Clone, Copy, PartialEq, Eq, Structural)]
pub enum WallType {
    Normal,
}

/// One wall segment: the right or the bottom edge of a cell.
#[derive(Debug, Clone, Copy, PartialEq, Eq, Structural)]
pub struct WallData {
    pub wall_type: WallType,
    pub color: ActivatingColor,
    pub input_dependent: bool,
    pub opened: bool,
}

impl WallData {
    pub fn new(wall_type: WallType, color: ActivatingColor, input_dependent: bool, opened: bool) -> (r:
        WallData)
        ensures
            r == (WallData { wall_type, color, input_dependent, opened }),
    {
        WallData { wall_type, color, input_dependent, opened }
    }

    pub fn default(wall_type: WallType) -> (r: WallData)
        ensures
            r == (WallData {
                wall_type,
                color: ActivatingColor::Uncolored,
                input_dependent: false,
                opened: false,
            }),
    {
        WallData { wall_type, color: ActivatingColor::Uncolored, input_dependent: false, opened: false }
    }
}

/// Which of the two segments of a cell a wall operation targets.
#[derive(Debug, Clone, Copy, PartialEq, Eq, Structural)]
pub enum WallOrientation {
    Right,
    Down,
}

/// The walls of one cell: a segment on its bottom edge and one on its right edge,
/// each present or not, independently of the other.
#[derive(Debug, Clone, Copy, PartialEq, Eq, Structural)]
pub struct Wall {
    pub down: Option<WallData>,
    pub right: Option<WallData>,
}

impl Wall {
    /// No segment at all: such a wall is logically absent.
    pub open spec fn is_empty(self) -> bool {
        self.down is None && self.right is None
    }

    /// The wall with the segment `o` set to `d`, the other one kept.
    pub open spec fn with_segment(self, d: WallData, o: WallOrientation) -> Wall {
        match o {
            WallOrientation::Right => Wall { right: Some(d), ..self },
            WallOrientation::Down => Wall { down: Some(d), ..self },
        }
    }

    /// The wall with the segment `o` cleared, the other one kept.
    pub open spec fn without_segment(self, o: WallOrientation) -> Wall {
        match o {
            WallOrientation::Right => Wall { right: None, ..self },
            WallOrientation::Down => Wall { down: None, ..self },
        }
    }

    pub fn new() -> (r: Wall)
        ensures
            r.is_empty(),
    {
        Wall { down: None, right: None }
    }

    /// Takes every segment that `other` has; keeps the others.
    pub fn merge(&mut self, other: Wall)
        ensures
            final(self).right == (if other.right is Some { other.right } else { old(self).right }),
            final(self).down == (if other.down is Some { other.down } else { old(self).down }),
    {
        if let Some(data) = other.right {
            self.right = Some(data);
        }
        if let Some(data) = other.down {
            self.down = Some(data);
        }
    }

    pub fn merge_data(&mut self, other: WallData, orientation: WallOrientation)
        ensures
            *final(self) == old(self).with_segment(other, orientation),
    {
        match orientation {
            WallOrientation::Right => self.right = Some(other),
            WallOrientation::Down => self.down = Some(other),
        }
    }

    pub fn remove_segment(&mut self, orientation: WallOrientation)
        ensures
            *final(self) == old(self).without_segment(orientation),
    {
        match orientation {
            WallOrientation::Right => self.right = None,
            WallOrientation::Down => self.down = None,
        }
    }

    pub fn is_empty_wall(&self) -> (r: bool)
        ensures
            r == self.is_empty(),
    {
        self.down.is_none() && self.right.is_none()
    }
}

/// What a cell holds after painting `data` onto an empty cell.
pub open spec fn content_of(data: LayerData, orientation: WallOrientation) -> LayerContent {
    match data {
        Layer::Object(d) => Layer::Object(d),
        Layer::Floor(d) => Layer::Floor(d),
        Layer::Wall(d) => Layer::Wall(Wall { down: None, right: None }.with_segment(d, orientation)),
        Layer::Collectible(d) => Layer::Collectible(d),
    }
}

impl LayerContent {
    /// The content of a cell that held nothing of this kind once `data` is painted on it.
    pub fn new(data: LayerData, orientation: WallOrientation) -> (r: LayerContent)
        ensures
            r == content_of(data, orientation),
    {
        match data {
            Layer::Floor(d) => Layer::Floor(d),
            Layer::Object(d) => Layer::Object(d),
            Layer::Collectible(d) => Layer::Collectible(d),
            Layer::Wall(d) => {
                let mut wall = Wall::new();
                wall.merge_data(d, orientation);
                Layer::Wall(wall)
            },
        }
    }
}

/// The kind of a layer value, whatever its payload.
pub open spec fn kind_of<O, F, W, C>(l: Layer<O, F, W, C>) -> Layer {
    match l {
        Layer::Object(_) => Layer::Object(()),
        Layer::Floor(_) => Layer::Floor(()),
        Layer::Wall(_) => Layer::Wall(()),
        Layer::Collectible(_) => Layer::Collectible(()),
    }
}

} // verus!
