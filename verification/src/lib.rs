use vstd::prelude::*;

pub mod consts;
pub mod food;
pub mod grid;
pub mod hash_map_id;
pub mod map;
pub mod menu;
pub mod path;
mod rng;
pub mod scene;
pub mod snake;
pub mod text;
pub mod tile;
pub mod tileset;
pub mod ui;

verus! {

} // verus!
