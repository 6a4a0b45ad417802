use vstd::prelude::*;

pub mod connections;
pub mod reservation;
pub mod road;

use crate::grid::ReservationError;
use crate::hash_map_id::Id;
use crate::map::direction::spec_all_directions;
use crate::map::position::{plus, plus_fits};
use crate::map::{Direction, Position};
use reservation::Reservation;
use road::{road_char_connections, Road};

verus! {

/// The cost of driving over a free road.
pub const DEFAULT_COST: u32 = 1;

/// The cost of driving over a road another vehicle holds.
pub const OCCUPIED_COST: u32 = 2;

/// When a vehicle entering a tile gives way.
#[derive(Clone, Copy, PartialEq, Eq, Structural, Debug)]
pub enum YieldType {
    Always,
    IfAtIntersection,
    Never,
}

/// A house on a tile, and the vehicle heading for it, if any.
#[derive(Clone, Copy, PartialEq, Eq, Structural, Debug)]
pub struct Building {
    pub vehicle_on_the_way: Option<Id>,
}

impl Building {
    /// A house nobody is heading for.
    pub fn new() -> (r: Self)
        ensures
            r.vehicle_on_the_way is None,
    {
        Building { vehicle_on_the_way: None }
    }
}

/// A ramp between layers, in the direction it climbs or descends.
#[derive(Clone, Copy, PartialEq, Eq, Structural, Debug)]
pub struct Ramp {
    pub dir: Direction,
}

impl Ramp {
    pub fn new(dir: Direction) -> (r: Self)
        ensures
            r.dir == dir,
    {
        Self { dir }
    }
}

/// What a tile of the grid holds.
#[derive(Clone, PartialEq, Eq, Debug)]
pub enum Tile {
    Empty,
    Building(Building),
    Road(Road),
    Ramp(Ramp),
}

impl Tile {
    /// Empty ground.
    pub fn new() -> (r: Self)
        ensures
            r is Empty,
    {
        Tile::Empty
    }

    /// The tile that character `ch` draws in a map string: `h` a house, a
    /// road character its road, anything else empty ground.
    pub fn new_from_char(ch: char) -> (r: Self)
        ensures
            ch == 'h' ==> r == Tile::Building(Building { vehicle_on_the_way: None }),
            ch != 'h' && (ch == '_' || road_char_connections(ch) is None) ==> r is Empty,
            ch != 'h' && ch != '_' && road_char_connections(ch) is Some ==> (r matches Tile::Road(road) && road@
                == road_char_connections(ch)->0 && road.should_yield == (ch == 'y')),
    {
        if ch == 'h' {
            Tile::Building(Building { vehicle_on_the_way: None })
        } else if ch == '_' {
            Tile::Empty
        } else {
            match Road::new_from_char(ch) {
                Some(road) => Tile::Road(road),
                None => Tile::Empty,
            }
        }
    }

    /// The directions the tile can be left by: a road's connections, all four
    /// ground directions from a house, none otherwise.
    pub fn iter_connections(&self) -> (r: Vec<Direction>)
        ensures
            r@ == (match self {
                Tile::Road(road) => road@,
                Tile::Building(_) => spec_all_directions(),
                _ => Seq::empty(),
            }),
    {
        match self {
            Tile::Road(road) => road.iter_connections(),
            Tile::Building(_) => {
                let all = Direction::all();
                let mut v: Vec<Direction> = Vec::new();
                v.push(all[0]);
                v.push(all[1]);
                v.push(all[2]);
                v.push(all[3]);
                assert(v@ =~= spec_all_directions());
                v
            },
            _ => Vec::new(),
        }
    }

    /// Lets vehicle `id` hold the tile at `pos`: a road when nobody holds it
    /// (`TileReserved` otherwise), a house always, nothing else (`TileInvalid`).
    pub fn reserve(&mut self, id: Id, pos: Position) -> (r: Result<Reservation, ReservationError>)
        ensures
            match *old(self) {
                Tile::Road(_) => match r {
                    Ok(res) => *res._strong_id == id && res.pos == pos,
                    Err(e) => e == ReservationError::TileReserved,
                },
                Tile::Building(_) => r matches Ok(res) && *res._strong_id == 0 && res.pos == pos,
                _ => r == Err::<Reservation, ReservationError>(ReservationError::TileInvalid),
            },
    {
        match self {
            Tile::Road(road) => match road.reserved.try_reserve(id, pos) {
                Some(res) => Ok(res),
                None => Err(ReservationError::TileReserved),
            },
            Tile::Building(_) => Ok(Reservation::new_for_house(pos)),
            _ => Err(ReservationError::TileInvalid),
        }
    }

    /// Whether vehicles entering the tile give way: never onto a road with
    /// several connections, at an intersection onto other roads, always
    /// onto anything else.
    pub fn should_yield(&self) -> (r: YieldType)
        ensures
            r == (match self {
                Tile::Road(road) => if road@.len() as u32 > 1 {
                    YieldType::Never
                } else {
                    YieldType::IfAtIntersection
                },
                _ => YieldType::Always,
            }),
    {
        match self {
            Tile::Road(road) => {
                if road.connection_count() > 1 {
                    YieldType::Never
                } else {
                    YieldType::IfAtIntersection
                }
            },
            _ => YieldType::Always,
        }
    }

    /// Whether a vehicle coming from `dir_from` with `should_yield` must let
    /// the holder of this road go first: the road is held, leads back towards
    /// `dir_from`, and the newcomer always yields or the road is an
    /// intersection. Never for other tiles. Whether the road is held is what
    /// `Reserved::is_reserved` answers, which depends on the holder's
    /// reservation being alive, so when the answer is `true` is left unsaid.
    pub fn should_be_yielded_to(&self, should_yield: YieldType, dir_from: Direction) -> (r: bool)
        requires
            dir_from.x != i8::MIN,
            dir_from.y != i8::MIN,
        ensures
            r ==> (self matches Tile::Road(road) && road@.contains(dir_from.spec_inverse()) && (should_yield
                == YieldType::Always || road@.len() as u32 > 1)),
    {
        match self {
            Tile::Road(road) => {
                if road.reserved.is_reserved() && road.is_connected(dir_from.inverse()) {
                    should_yield == YieldType::Always || road.connection_count() > 1
                } else {
                    false
                }
            },
            _ => false,
        }
    }

    /// What driving over the tile costs: a road one when free and two when
    /// held, a house two, anything else (a dead end to turn around at) three.
    pub fn cost(&self) -> (r: u32)
        ensures
            match self {
                Tile::Road(_) => r == DEFAULT_COST || r == OCCUPIED_COST,
                Tile::Building(_) => r == DEFAULT_COST * 2,
                _ => r == DEFAULT_COST * 3,
            },
    {
        match self {
            Tile::Road(road) => {
                if road.reserved.is_reserved() {
                    OCCUPIED_COST
                } else {
                    DEFAULT_COST
                }
            },
            Tile::Building(_) => DEFAULT_COST * 2,
            _ => DEFAULT_COST * 3,
        }
    }

    /// Whether the tile is a road.
    pub fn is_road(&self) -> (r: bool)
        ensures
            r == self is Road,
    {
        match self {
            Tile::Road(_) => true,
            _ => false,
        }
    }

    /// Where driving onto the tile at `pos` leads (a ramp moves on along its
    /// direction), and what the tile costs.
    pub fn road_successor(&self, pos: &Position) -> (r: (Position, u32))
        requires
            self matches Tile::Ramp(ramp) ==> plus_fits(*pos, ramp.dir),
        ensures
            r.0 == (match self {
                Tile::Ramp(ramp) => plus(*pos, ramp.dir),
                _ => *pos,
            }),
            match self {
                Tile::Road(_) => r.1 == DEFAULT_COST || r.1 == OCCUPIED_COST,
                Tile::Building(_) => r.1 == DEFAULT_COST * 2,
                _ => r.1 == DEFAULT_COST * 3,
            },
    {
        let next = match self {
            Tile::Ramp(ramp) => *pos + ramp.dir,
            _ => *pos,
        };
        (next, self.cost())
    }
}

} // verus!
