use vstd::prelude::*;

pub mod reservation;
pub use reservation::{Reservation, ReservationError, Reserved, ReservedList, Tick};
pub mod road;
pub use road::Road;

use crate::hash_map_id::Id;
use crate::map::direction::Direction;
use crate::map::position::Position;
use reservation::{granted_list, holder_of, refused, released};
use road::char_connections;

verus! {

/// Cost of driving onto a road tile.
pub const DEFAULT_COST: u32 = 1;

/// A ramp between the ground and a bridge, climbing towards `dir`.
#[derive(Clone, Copy, PartialEq, Eq, Structural, Debug)]
pub struct Ramp {
    pub dir: Direction,
}

impl Ramp {
    pub fn new(dir: Direction) -> (r: Self)
        ensures
            r.dir == dir,
    {
        Self { dir }
    }

    /// How the map shows this ramp: `)` climbs right, `(` climbs left, `r?` otherwise.
    pub fn debug_chars(&self) -> (r: Vec<char>)
        ensures
            r@ == (if self.dir == Direction::right() {
                seq![')']
            } else if self.dir == Direction::left() {
                seq!['(']
            } else {
                seq!['r', '?']
            }),
    {
        if self.dir == Direction::right() {
            vec![')']
        } else if self.dir == Direction::left() {
            vec!['(']
        } else {
            vec!['r', '?']
        }
    }
}

#[derive(Clone, Copy, PartialEq, Eq, Structural, Debug)]
pub struct BuildingTile {}

/// What occupies one layer of one grid cell.
#[derive(Clone, PartialEq, Eq, Debug)]
pub enum Tile {
    Empty,
    Building(Id),
    Road(Road),
    Ramp(Ramp),
    Water,
}

/// The value of a road tile: everything it holds as plain values.
pub struct RoadView {
    pub should_yield: bool,
    pub station: Option<Id>,
    pub reserved: Seq<Reserved>,
    pub connections: Seq<Direction>,
}

/// The value of a tile.
pub enum TileView {
    Empty,
    Building(Id),
    Road(RoadView),
    Ramp(Direction),
    Water,
}

impl Road {
    pub open spec fn view(&self) -> RoadView {
        RoadView {
            should_yield: self.should_yield,
            station: self.station,
            reserved: self.reserved@,
            connections: self.connections(),
        }
    }
}

/// A road tile with the given connections and station, nobody yielding and nothing reserved.
pub open spec fn plain_road(connections: Seq<Direction>, station: Option<Id>) -> TileView {
    TileView::Road(
        RoadView { should_yield: false, station, reserved: Seq::empty(), connections },
    )
}

/// The digits `1` to `8` mark the tiles of numbered stations.
pub open spec fn is_station_digit(ch: char) -> bool {
    0x31 <= (ch as u32) && (ch as u32) < 0x39
}

fn station_digit(ch: char) -> (r: bool)
    ensures
        r == is_station_digit(ch),
{
    let c = ch as u32;
    0x31 <= c && c < 0x39
}

/// The tile that character `ch` stands for in a map string.
pub open spec fn spec_tile_from_char(ch: char) -> TileView {
    if ch == 'h' {
        TileView::Building(0)
    } else if ch == ')' {
        TileView::Ramp(Direction::right())
    } else if ch == '(' {
        TileView::Ramp(Direction::left())
    } else if ch == '_' {
        TileView::Empty
    } else if ch == 'w' {
        TileView::Water
    } else if is_station_digit(ch) {
        plain_road(seq![], Some((ch as u64 - '0' as u64) as u64))
    } else {
        match char_connections(ch) {
            Some(c) => TileView::Road(
                RoadView { should_yield: ch == 'y', station: None, reserved: Seq::empty(), connections: c },
            ),
            None => TileView::Empty,
        }
    }
}

/// What driving onto a tile costs a route: roads are cheapest, buildings
/// cost twice as much, anything else (a dead-end turn) three times.
pub open spec fn tile_cost(t: TileView) -> u32 {
    match t {
        TileView::Road(_) => DEFAULT_COST,
        TileView::Building(_) => (DEFAULT_COST * 2) as u32,
        _ => (DEFAULT_COST * 3) as u32,
    }
}

/// What reserving tile `t` for vehicle `id` over `[start, end]` at tick
/// `current` answers, and what the tile becomes.
pub open spec fn spec_reserve(
    t: TileView,
    id: Id,
    pos: Position,
    current: Tick,
    start: Tick,
    end: Tick,
) -> (Result<Reservation, ReservationError>, TileView) {
    match t {
        TileView::Road(road) => if refused(road.reserved, id, start, end) {
            (Err(ReservationError::TileReserved), t)
        } else {
            (
                Ok(Reservation { start, end, pos }),
                TileView::Road(
                    RoadView { reserved: granted_list(road.reserved, id, current, start, end), ..road },
                ),
            )
        },
        TileView::Building(_) => (Ok(Reservation { start, end, pos }), t),
        _ => (Err(ReservationError::TileInvalid), t),
    }
}

/// Tile `t` once vehicle `id` has let go of it.
pub open spec fn spec_unreserve(t: TileView, id: Id) -> TileView {
    match t {
        TileView::Road(road) => TileView::Road(RoadView { reserved: released(road.reserved, id), ..road }),
        other => other,
    }
}

/// Whether vehicle `id` could hold tile `t` over `[start, end]`.
pub open spec fn spec_is_reserved(t: TileView, id: Id, start: Tick, end: Tick) -> Result<
    (),
    ReservationError,
> {
    match t {
        TileView::Road(road) => if holder_of(road.reserved, start, end) matches Some(h) && h != id {
            Err(ReservationError::TileReserved)
        } else {
            Ok(())
        },
        _ => Err(ReservationError::TileInvalid),
    }
}

/// The building a tile belongs to: a building tile's id or a road's station.
pub open spec fn tile_building_id(t: TileView) -> Option<Id> {
    match t {
        TileView::Building(building_id) => Some(building_id),
        TileView::Road(road) => road.station,
        _ => None,
    }
}

/// How the map shows a road with these connections.
pub open spec fn spec_road_char(c: Seq<Direction>) -> char {
    if c.contains(Direction::up()) && c.contains(Direction::left()) {
        'r'
    } else if c.contains(Direction::down()) && c.contains(Direction::left()) {
        'l'
    } else if c.contains(Direction::down()) && c.contains(Direction::right()) {
        'L'
    } else if c.contains(Direction::up()) && c.contains(Direction::right()) {
        'R'
    } else if c.contains(Direction::left()) {
        '<'
    } else if c.contains(Direction::right()) {
        '>'
    } else if c.contains(Direction::up()) {
        '^'
    } else if c.contains(Direction::down()) {
        '.'
    } else if c.contains(Direction { x: 1, y: 0, z: 1 }) {
        '}'
    } else if c.contains(Direction { x: 1, y: 0, z: -1i8 }) {
        ']'
    } else if c.contains(Direction { x: -1i8, y: 0, z: 1 }) {
        '{'
    } else if c.contains(Direction { x: -1i8, y: 0, z: -1i8 }) {
        '['
    } else {
        '*'
    }
}

/// How the map shows a tile.
pub open spec fn spec_tile_chars(t: TileView) -> Seq<char> {
    match t {
        TileView::Empty => seq!['e'],
        TileView::Road(r) => seq![spec_road_char(r.connections)],
        TileView::Building(_) => seq!['h'],
        TileView::Water => seq!['w'],
        TileView::Ramp(dir) => if dir == Direction::right() {
            seq![')']
        } else if dir == Direction::left() {
            seq!['(']
        } else {
            seq!['r', '?']
        },
    }
}

impl Road {
    /// The character the map shows for this road.
    pub fn debug_char(&self) -> (r: char)
        ensures
            r == spec_road_char(self.connections()),
    {
        if self.is_connected(Direction::up()) && self.is_connected(Direction::left()) {
            'r'
        } else if self.is_connected(Direction::down()) && self.is_connected(Direction::left()) {
            'l'
        } else if self.is_connected(Direction::down()) && self.is_connected(Direction::right()) {
            'L'
        } else if self.is_connected(Direction::up()) && self.is_connected(Direction::right()) {
            'R'
        } else if self.is_connected(Direction::left()) {
            '<'
        } else if self.is_connected(Direction::right()) {
            '>'
        } else if self.is_connected(Direction::up()) {
            '^'
        } else if self.is_connected(Direction::down()) {
            '.'
        } else if self.is_connected(Direction::right() + Direction::layer_up()) {
            '}'
        } else if self.is_connected(Direction::right() + Direction::layer_down()) {
            ']'
        } else if self.is_connected(Direction::left() + Direction::layer_up()) {
            '{'
        } else if self.is_connected(Direction::left() + Direction::layer_down()) {
            '['
        } else {
            '*'
        }
    }
}

impl Tile {
    /// The characters the map shows for this tile.
    pub fn debug_chars(&self) -> (r: Vec<char>)
        ensures
            r@ == spec_tile_chars(self@),
    {
        match self {
            Tile::Empty => vec!['e'],
            Tile::Road(road) => vec![road.debug_char()],
            Tile::Building(_) => vec!['h'],
            Tile::Water => vec!['w'],
            Tile::Ramp(ramp) => ramp.debug_chars(),
        }
    }

    pub open spec fn view(&self) -> TileView {
        match self {
            Tile::Empty => TileView::Empty,
            Tile::Building(id) => TileView::Building(*id),
            Tile::Road(road) => TileView::Road(road@),
            Tile::Ramp(ramp) => TileView::Ramp(ramp.dir),
            Tile::Water => TileView::Water,
        }
    }

    /// Road tiles keep their connections free of repeats and of `NONE`.
    pub open spec fn wf(&self) -> bool {
        self matches Tile::Road(road) ==> road.wf()
    }

    /// Whether the tile is well formed (see `wf`).
    pub fn check_wf(&self) -> (r: bool)
        ensures
            r == self.wf(),
    {
        match self {
            Tile::Road(road) => road.check_wf(),
            _ => true,
        }
    }

    /// A copy of this tile.
    pub fn duplicate(&self) -> (r: Self)
        ensures
            r@ == self@,
            r.wf() == self.wf(),
    {
        match self {
            Tile::Empty => Tile::Empty,
            Tile::Building(id) => Tile::Building(*id),
            Tile::Road(road) => Tile::Road(road.duplicate()),
            Tile::Ramp(ramp) => Tile::Ramp(*ramp),
            Tile::Water => Tile::Water,
        }
    }

    pub fn new() -> (r: Self)
        ensures
            r@ == TileView::Empty,
    {
        Tile::Empty
    }

    pub fn new_from_char(ch: char) -> (r: Self)
        ensures
            r@ == spec_tile_from_char(ch),
            r.wf(),
    {
        if ch == 'h' {
            Tile::Building(0)
        } else if ch == ')' {
            Tile::Ramp(Ramp { dir: Direction::right() })
        } else if ch == '(' {
            Tile::Ramp(Ramp { dir: Direction::left() })
        } else if ch == '_' {
            Tile::Empty
        } else if ch == 'w' {
            Tile::Water
        } else if station_digit(ch) {
            Tile::Road(Road::new_connected(Direction::none(), Some(ch as Id - '0' as Id)))
        } else {
            if let Some(road) = Road::new_from_char(ch) {
                Tile::Road(road)
            } else {
                Tile::Empty
            }
        }
    }

    /// Reserves this tile for vehicle `id` over `[start, end]`, asked at tick `current`.
    /// Roads keep a list of holders; buildings take any number of vehicles.
    pub fn reserve(&mut self, id: Id, pos: Position, current: Tick, start: Tick, end: Tick) -> (r:
        Result<Reservation, ReservationError>)
        ensures
            (r, final(self)@) == spec_reserve(old(self)@, id, pos, current, start, end),
            final(self).wf() == old(self).wf(),
    {
        match self {
            Tile::Road(road) => {
                let reservation = Reservation::new(pos, start, end);
                match road.reserved.try_reserve(id, current, &reservation) {
                    Ok(()) => Ok(reservation),
                    Err(e) => Err(e),
                }
            },
            Tile::Building(_) => Ok(Reservation::new(pos, start, end)),
            _ => Err(ReservationError::TileInvalid),
        }
    }

    /// Releases whatever vehicle `id` holds of this tile.
    pub fn unreserve(&mut self, id: Id)
        ensures
            final(self)@ == spec_unreserve(old(self)@, id),
            final(self).wf() == old(self).wf(),
    {
        match self {
            Tile::Road(road) => road.reserved.unreserve(id),
            _ => {},
        }
    }

    /// `Ok` when vehicle `id` could hold this road tile over `[start, end]`.
    pub fn is_reserved(&self, id: Id, start: Tick, end: Tick) -> (r: Result<(), ReservationError>)
        ensures
            r == spec_is_reserved(self@, id, start, end),
    {
        match self {
            Tile::Road(road) => {
                if road.reserved.is_reserved(id, start, end) {
                    Err(ReservationError::TileReserved)
                } else {
                    Ok(())
                }
            },
            _ => Err(ReservationError::TileInvalid),
        }
    }

    pub open spec fn spec_cost(&self) -> u32 {
        tile_cost(self@)
    }

    pub fn cost(&self) -> (r: u32)
        ensures
            r == self.spec_cost(),
    {
        match self {
            Tile::Road(_road) => DEFAULT_COST,
            Tile::Building(_) => DEFAULT_COST * 2,
            _ => DEFAULT_COST * 3,
        }
    }

    pub fn is_road(&self) -> (r: bool)
        ensures
            r == (self is Road),
    {
        match self {
            Tile::Road(_) => true,
            _ => false,
        }
    }

    pub open spec fn spec_building_id(&self) -> Option<Id> {
        tile_building_id(self@)
    }

    /// The building this tile belongs to: a building tile's id or a road's station.
    pub fn get_building_id(&self) -> (r: Option<Id>)
        ensures
            r == self.spec_building_id(),
    {
        match self {
            Tile::Building(building_id) => Some(*building_id),
            Tile::Road(road) => road.station,
            _ => None,
        }
    }
}

} // verus!
