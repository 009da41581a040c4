//! A level editor's core: entities painted per cell on an unbounded grid, the
//! mapping from pointer to cell and wall side, the paint tool driven by keys, and
//! the line-based level file with its reader.
pub mod assoc;
pub mod cell_map;
pub mod coords;
pub mod input_handler;
pub mod instances;
pub mod level_data;
pub mod resources;
pub mod round_trip;
pub mod serialization;
pub mod session;
pub mod text;
