use vstd::prelude::*;

pub mod connections;
pub mod direction;
pub use connections::{ConnectionLayer, Connections, ConnectionsIterator};
pub use direction::Direction;

verus! {

/// Columns and rows of the small fixed grid that `PathGrid` and the snake live on.
pub const GRID_SIZE: (i16, i16) = (30, 20);

/// A cell of the small fixed grid.
#[derive(Clone, Copy, PartialEq, Eq, Structural, Debug, Hash)]
pub struct GridPosition {
    pub x: i16,
    pub y: i16,
}

/// The cell one step from `pos` along `dir`, wrapping around the grid's edges.
pub open spec fn spec_moved(pos: GridPosition, dir: Direction) -> GridPosition {
    match dir {
        Direction::Up => GridPosition { x: pos.x, y: ((pos.y - 1) % (GRID_SIZE.1 as int)) as i16 },
        Direction::Down => GridPosition { x: pos.x, y: ((pos.y + 1) % (GRID_SIZE.1 as int)) as i16 },
        Direction::Left => GridPosition { x: ((pos.x - 1) % (GRID_SIZE.0 as int)) as i16, y: pos.y },
        Direction::Right => GridPosition { x: ((pos.x + 1) % (GRID_SIZE.0 as int)) as i16, y: pos.y },
    }
}

impl GridPosition {
    pub fn new(x: i16, y: i16) -> (r: Self)
        ensures
            r == (GridPosition { x, y }),
    {
        GridPosition { x, y }
    }

    /// The cell one step from `pos` along `dir`, wrapping around the grid's edges.
    pub fn new_from_move(pos: GridPosition, dir: Direction) -> (r: Self)
        ensures
            r == spec_moved(pos, dir),
    {
        match dir {
            Direction::Up => GridPosition::new(pos.x, wrap(pos.y as i32 - 1, GRID_SIZE.1 as i32)),
            Direction::Down => GridPosition::new(pos.x, wrap(pos.y as i32 + 1, GRID_SIZE.1 as i32)),
            Direction::Left => GridPosition::new(wrap(pos.x as i32 - 1, GRID_SIZE.0 as i32), pos.y),
            Direction::Right => GridPosition::new(wrap(pos.x as i32 + 1, GRID_SIZE.0 as i32), pos.y),
        }
    }
}

/// `v` modulo `n`, always in `[0, n)`.
fn wrap(v: i32, n: i32) -> (r: i16)
    requires
        0 < n <= i16::MAX,
    ensures
        r == v % n,
{
    match v.checked_rem_euclid(n) {
        Some(m) => m as i16,
        None => 0,
    }
}

/// Why a tile could not be held.
#[derive(Clone, Copy, PartialEq, Eq, Structural, Debug)]
pub enum ReservationError {
    TileInvalid,
    TileReserved,
}

/// How a request to hold a tile of the grid went.
#[derive(Clone, Copy, PartialEq, Eq, Structural, Debug)]
pub enum ReservationStatus {
    TileInvalid,
    TileReserved,
    TileSuccess,
}

} // verus!
