//! The paint tool: which layer, item, colour and modifiers the next paint uses,
//! driven by key presses.
use crate::instances::{
    ActivatingColor, Collectible, CollectibleType, Floor, FloorType, Layer, LayerData, Object,
    ObjectType, WallData, WallType,
};
use vstd::prelude::*;

verus! {

/// The keys the editor reacts to; every other key is `Other`.
#[derive(Debug, Clone, Copy, PartialEq, Eq, Structural)]
pub enum Key {
    Key1,
    Key2,
    Key3,
    Key4,
    Key5,
    Key6,
    Key7,
    Key8,
    Key9,
    Q,
    W,
    E,
    R,
    T,
    Y,
    U,
    I,
    O,
    P,
    A,
    S,
    D,
    F,
    G,
    H,
    J,
    N,
    M,
    B,
    Escape,
    Space,
    Back,
    Return,
    Other,
}

/// The digit a key stands for, if it is one of `1` to `9`.
pub open spec fn digit_of(k: Key) -> Option<i32> {
    match k {
        Key::Key1 => Some(1),
        Key::Key2 => Some(2),
        Key::Key3 => Some(3),
        Key::Key4 => Some(4),
        Key::Key5 => Some(5),
        Key::Key6 => Some(6),
        Key::Key7 => Some(7),
        Key::Key8 => Some(8),
        Key::Key9 => Some(9),
        _ => None,
    }
}

/// The item index a key selects: the row `Q` to `P` gives 0 to 9.
pub open spec fn item_index_of(k: Key) -> Option<usize> {
    match k {
        Key::Q => Some(0),
        Key::W => Some(1),
        Key::E => Some(2),
        Key::R => Some(3),
        Key::T => Some(4),
        Key::Y => Some(5),
        Key::U => Some(6),
        Key::I => Some(7),
        Key::O => Some(8),
        Key::P => Some(9),
        _ => None,
    }
}

/// The colour a key selects: the row `A` to `J`.
pub open spec fn color_of(k: Key) -> Option<ActivatingColor> {
    match k {
        Key::A => Some(ActivatingColor::Uncolored),
        Key::S => Some(ActivatingColor::Red),
        Key::D => Some(ActivatingColor::Blue),
        Key::F => Some(ActivatingColor::Green),
        Key::G => Some(ActivatingColor::Yellow),
        Key::H => Some(ActivatingColor::Cyan),
        Key::J => Some(ActivatingColor::Pink),
        _ => None,
    }
}

/// The layer a key selects: `1` to `4`.
pub open spec fn layer_of(k: Key) -> Option<Layer> {
    match k {
        Key::Key1 => Some(Layer::Object(())),
        Key::Key2 => Some(Layer::Floor(())),
        Key::Key3 => Some(Layer::Wall(())),
        Key::Key4 => Some(Layer::Collectible(())),
        _ => None,
    }
}

pub open spec fn object_palette() -> Seq<ObjectType> {
    seq![ObjectType::Player, ObjectType::Box, ObjectType::TeleBox]
}

pub open spec fn floor_palette() -> Seq<FloorType> {
    seq![FloorType::Normal, FloorType::Button, FloorType::Teleport]
}

pub open spec fn wall_palette() -> Seq<WallType> {
    seq![WallType::Normal]
}

pub open spec fn collectible_palette() -> Seq<CollectibleType> {
    seq![CollectibleType::Win]
}

fn object_item_at(index: usize) -> (r: Option<ObjectType>)
    ensures
        r == (if index < object_palette().len() { Some(object_palette()[index as int]) } else { None }),
{
    match index {
        0 => Some(ObjectType::Player),
        1 => Some(ObjectType::Box),
        2 => Some(ObjectType::TeleBox),
        _ => None,
    }
}

fn floor_item_at(index: usize) -> (r: Option<FloorType>)
    ensures
        r == (if index < floor_palette().len() { Some(floor_palette()[index as int]) } else { None }),
{
    match index {
        0 => Some(FloorType::Normal),
        1 => Some(FloorType::Button),
        2 => Some(FloorType::Teleport),
        _ => None,
    }
}

fn wall_item_at(index: usize) -> (r: Option<WallType>)
    ensures
        r == (if index < wall_palette().len() { Some(wall_palette()[index as int]) } else { None }),
{
    match index {
        0 => Some(WallType::Normal),
        _ => None,
    }
}

fn collectible_item_at(index: usize) -> (r: Option<CollectibleType>)
    ensures
        r == (if index < collectible_palette().len() {
            Some(collectible_palette()[index as int])
        } else {
            None
        }),
{
    match index {
        0 => Some(CollectibleType::Win),
        _ => None,
    }
}

/// The state of the paint tool. Each layer remembers its own item while another
/// layer is selected; the colour is shared.
#[derive(Debug, Clone, Copy)]
pub struct InputHandler {
    pub layer: Layer,
    pub object_item: ObjectType,
    pub floor_item: FloorType,
    pub wall_item: WallType,
    pub collectible_item: CollectibleType,
    pub color: ActivatingColor,
    pub wall_input_dependent: bool,
    pub wall_opened: bool,
    pub floor_durability: i32,
    /// Set by `B`: the next key, if a digit, gives the floor durability.
    pub waiting_for_durability_input: bool,
    pub request_save: bool,
    pub request_load: bool,
}

impl InputHandler {
    /// The durability stays a digit from 1 to 9.
    pub open spec fn wf(self) -> bool {
        1 <= self.floor_durability <= 9
    }

    /// The tool with item `index` of the current layer's palette selected; an index
    /// past the end of the palette changes nothing.
    pub open spec fn with_item(self, index: usize) -> InputHandler {
        match self.layer {
            Layer::Object(_) => if index < object_palette().len() {
                InputHandler { object_item: object_palette()[index as int], ..self }
            } else {
                self
            },
            Layer::Floor(_) => if index < floor_palette().len() {
                InputHandler { floor_item: floor_palette()[index as int], ..self }
            } else {
                self
            },
            Layer::Wall(_) => if index < wall_palette().len() {
                InputHandler { wall_item: wall_palette()[index as int], ..self }
            } else {
                self
            },
            Layer::Collectible(_) => if index < collectible_palette().len() {
                InputHandler { collectible_item: collectible_palette()[index as int], ..self }
            } else {
                self
            },
        }
    }

    /// The tool after the key `k` is pressed.
    pub open spec fn after_key(self, k: Key) -> InputHandler {
        if self.waiting_for_durability_input {
            let durability = match digit_of(k) {
                Some(d) => d,
                None => self.floor_durability,
            };
            InputHandler { floor_durability: durability, waiting_for_durability_input: false, ..self }
        } else if let Some(l) = layer_of(k) {
            InputHandler { layer: l, ..self }
        } else if let Some(index) = item_index_of(k) {
            self.with_item(index)
        } else if let Some(c) = color_of(k) {
            InputHandler { color: c, ..self }
        } else {
            match k {
                Key::N => InputHandler { wall_input_dependent: !self.wall_input_dependent, ..self },
                Key::M => InputHandler { wall_opened: !self.wall_opened, ..self },
                Key::B => InputHandler { waiting_for_durability_input: true, ..self },
                Key::Escape => InputHandler { request_save: true, ..self },
                Key::Space => InputHandler { request_load: true, ..self },
                _ => self,
            }
        }
    }

    /// The entity the tool paints: the current layer's item with the colour and, for
    /// a wall, its two flags; a `Normal` floor takes the durability, any other floor
    /// keeps the meaningless one.
    pub open spec fn tool(self) -> LayerData {
        match self.layer {
            Layer::Object(_) => Layer::Object(Object { object_type: self.object_item, color: self.color }),
            Layer::Floor(_) => Layer::Floor(
                Floor {
                    floor_type: self.floor_item,
                    color: self.color,
                    durability: if self.floor_item == FloorType::Normal {
                        self.floor_durability
                    } else {
                        crate::instances::NO_DURABILITY
                    },
                },
            ),
            Layer::Wall(_) => Layer::Wall(
                WallData {
                    wall_type: self.wall_item,
                    color: self.color,
                    input_dependent: self.wall_input_dependent,
                    opened: self.wall_opened,
                },
            ),
            Layer::Collectible(_) => Layer::Collectible(
                Collectible { collectible_type: self.collectible_item, color: self.color },
            ),
        }
    }

    /// The tool at start: the first object, no colour, durability 1.
    pub open spec fn new_spec() -> InputHandler {
        InputHandler {
            layer: Layer::Object(()),
            object_item: object_palette()[0],
            floor_item: floor_palette()[0],
            wall_item: wall_palette()[0],
            collectible_item: collectible_palette()[0],
            color: ActivatingColor::Uncolored,
            wall_input_dependent: false,
            wall_opened: false,
            floor_durability: 1,
            waiting_for_durability_input: false,
            request_save: false,
            request_load: false,
        }
    }

    pub fn new() -> (r: InputHandler)
        ensures
            r.wf(),
            r == InputHandler::new_spec(),
    {
        InputHandler {
            layer: Layer::Object(()),
            object_item: ObjectType::Player,
            floor_item: FloorType::Normal,
            wall_item: WallType::Normal,
            collectible_item: CollectibleType::Win,
            color: ActivatingColor::Uncolored,
            wall_input_dependent: false,
            wall_opened: false,
            floor_durability: 1,
            waiting_for_durability_input: false,
            request_save: false,
            request_load: false,
        }
    }

    pub fn layer(&self) -> (r: Layer)
        ensures
            r == self.layer,
    {
        self.layer
    }

    /// Reacts to one key press; `None` is a press without a known key code, which
    /// changes nothing.
    pub fn handle_input(&mut self, key: Option<Key>)
        requires
            old(self).wf(),
        ensures
            final(self).wf(),
            *final(self) == match key {
                Some(k) => old(self).after_key(k),
                None => *old(self),
            },
    {
        let keycode = match key {
            Some(k) => k,
            None => return ,
        };
        if self.waiting_for_durability_input {
            match keycode {
                Key::Key1 => self.floor_durability = 1,
                Key::Key2 => self.floor_durability = 2,
                Key::Key3 => self.floor_durability = 3,
                Key::Key4 => self.floor_durability = 4,
                Key::Key5 => self.floor_durability = 5,
                Key::Key6 => self.floor_durability = 6,
                Key::Key7 => self.floor_durability = 7,
                Key::Key8 => self.floor_durability = 8,
                Key::Key9 => self.floor_durability = 9,
                _ => {},
            }
            self.waiting_for_durability_input = false;
            return ;
        }
        match keycode {
            Key::Key1 => self.layer = Layer::Object(()),
            Key::Key2 => self.layer = Layer::Floor(()),
            Key::Key3 => self.layer = Layer::Wall(()),
            Key::Key4 => self.layer = Layer::Collectible(()),
            Key::Q => self.set_current_item(0),
            Key::W => self.set_current_item(1),
            Key::E => self.set_current_item(2),
            Key::R => self.set_current_item(3),
            Key::T => self.set_current_item(4),
            Key::Y => self.set_current_item(5),
            Key::U => self.set_current_item(6),
            Key::I => self.set_current_item(7),
            Key::O => self.set_current_item(8),
            Key::P => self.set_current_item(9),
            Key::A => self.color = ActivatingColor::Uncolored,
            Key::S => self.color = ActivatingColor::Red,
            Key::D => self.color = ActivatingColor::Blue,
            Key::F => self.color = ActivatingColor::Green,
            Key::G => self.color = ActivatingColor::Yellow,
            Key::H => self.color = ActivatingColor::Cyan,
            Key::J => self.color = ActivatingColor::Pink,
            Key::N => self.wall_input_dependent = !self.wall_input_dependent,
            Key::M => self.wall_opened = !self.wall_opened,
            Key::B => self.waiting_for_durability_input = true,
            Key::Escape => self.request_save = true,
            Key::Space => self.request_load = true,
            _ => {},
        }
    }

    /// Selects item `index` of the current layer's palette, if the palette has it.
    pub fn set_current_item(&mut self, index: usize)
        ensures
            *final(self) == old(self).with_item(index),
    {
        match self.layer {
            Layer::Object(()) => {
                if let Some(item) = object_item_at(index) {
                    self.object_item = item;
                }
            },
            Layer::Floor(()) => {
                if let Some(item) = floor_item_at(index) {
                    self.floor_item = item;
                }
            },
            Layer::Wall(()) => {
                if let Some(item) = wall_item_at(index) {
                    self.wall_item = item;
                }
            },
            Layer::Collectible(()) => {
                if let Some(item) = collectible_item_at(index) {
                    self.collectible_item = item;
                }
            },
        }
    }

    /// The entity that painting with the current tool puts into the grid.
    pub fn get_data(&self) -> (r: LayerData)
        ensures
            r == self.tool(),
    {
        match self.layer {
            Layer::Object(()) => Layer::Object(Object::new(self.object_item, self.color)),
            Layer::Floor(()) => {
                let mut floor = Floor::new(self.floor_item, self.color);
                if let FloorType::Normal = floor.floor_type {
                    floor.durability = self.floor_durability;
                }
                Layer::Floor(floor)
            },
            Layer::Wall(()) => Layer::Wall(
                WallData::new(
                    self.wall_item,
                    self.color,
                    self.wall_input_dependent,
                    self.wall_opened,
                ),
            ),
            Layer::Collectible(()) => Layer::Collectible(
                Collectible::new(self.collectible_item, self.color),
            ),
        }
    }
}

/// Selecting an item that the current layer's palette lacks changes nothing; on
/// the wall layer, whose palette has one item, that is any index from 1 on.
pub proof fn lemma_item_index_bounds(h: InputHandler, index: usize)
    requires
        h.layer == Layer::<(), (), (), ()>::Wall(()),
        index >= 1,
    ensures
        h.with_item(index) == h,
{
}

/// With the capture armed, a digit key sets the durability and disarms it, and the
/// key after that is taken as a tool command, as if no capture had happened.
pub proof fn lemma_durability_capture(h: InputHandler, digit: Key, next: Key)
    requires
        h.waiting_for_durability_input,
        digit_of(digit) is Some,
    ensures
        h.after_key(digit).floor_durability == digit_of(digit)->0,
        !h.after_key(digit).waiting_for_durability_input,
        h.after_key(digit).after_key(next) == (InputHandler {
            floor_durability: digit_of(digit)->0,
            waiting_for_durability_input: false,
            ..h
        }).after_key(next),
{
}

} // verus!
