use vstd::prelude::*;

use crate::map::Direction;

verus! {

/// A picture in the tileset: its row and column, and how many tiles it spans.
#[derive(Clone, Copy, PartialEq, Eq, Structural, Debug)]
pub struct Sprite {
    pub row: u8,
    pub col: u8,
    pub size: Direction,
}

impl Sprite {
    /// The one-tile picture at `row`, `col`.
    pub fn new(row: u8, col: u8) -> (r: Self)
        ensures
            r == (Sprite { row, col, size: Direction { x: 1, y: 1, z: 0 } }),
    {
        Sprite { row, col, size: Direction::new(1, 1, 0) }
    }

    /// The picture at `row`, `col` spanning `size` tiles.
    pub fn new_size(row: u8, col: u8, size: Direction) -> (r: Self)
        ensures
            r == (Sprite { row, col, size }),
    {
        Sprite { row, col, size }
    }
}

} // verus!
