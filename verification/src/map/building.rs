use vstd::prelude::*;

use crate::consts::SpawnerColors;
use crate::hash_map_id::Id;
use crate::rng::gen_range_u32;

use super::direction::Direction;
use super::grid::{spec_tile_at, Grid};
use super::position::{
    area_fits, area_from, lemma_area_from_bounds, plus, plus_fits, spec_corner_pos,
    spec_default_connections, Position,
};
use super::tile::{Tile, TileView};

verus! {

/// Ticks between two vehicles leaving a house.
pub const HOUSE_UPDATE_TICKS: i32 = 160;
/// Ticks between two vehicles leaving a spawner.
pub const SPAWNER_UPDATE_TICKS: i32 = 16;
/// Successful arrivals that a building needs for its goal.
pub const ARRIVED_GOAL: i32 = 10;

/// The footprint of a building: two by two tiles.
pub open spec fn spec_building_size() -> Direction {
    Direction { x: 2, y: 2, z: 0 }
}

pub fn building_size() -> (r: Direction)
    ensures
        r == spec_building_size(),
{
    Direction::new(2, 2, 0)
}

#[derive(Clone, Copy, PartialEq, Eq, Structural, Debug)]
pub enum BuildingType {
    House,
    Station,
    Spawner,
}

/// A house, station or spawner on the map: where it stands, where vehicles
/// leave it, and how it is doing on its goal of received vehicles.
#[derive(Clone, Copy, PartialEq, Eq, Structural, Debug)]
pub struct Building {
    pub pos: Position,
    pub dir: Option<Direction>,
    pub color: SpawnerColors,
    pub city_id: Id,
    pub vehicle_on_the_way: Option<Id>,
    pub arrived_count: i32,
    pub production_tics: i32,
    pub production_rate: i32,
    pub building_type: BuildingType,
}

/// `b` is a freshly built house at `pos` in city `city_id` (its production
/// counter starts at some tick in `[0, HOUSE_UPDATE_TICKS)`).
pub open spec fn is_new_house(b: Building, pos: Position, city_id: Id) -> bool {
    &&& b.pos == pos
    &&& b.dir is None
    &&& b.color == SpawnerColors::Blue
    &&& b.city_id == city_id
    &&& b.vehicle_on_the_way is None
    &&& b.arrived_count == 0
    &&& 0 <= b.production_tics < HOUSE_UPDATE_TICKS
    &&& b.production_rate == HOUSE_UPDATE_TICKS
    &&& b.building_type == BuildingType::House
}

/// `b` is a freshly built spawner at `pos` facing `dir`.
pub open spec fn is_new_spawner(
    b: Building,
    pos: Position,
    dir: Direction,
    color: SpawnerColors,
    city_id: Id,
) -> bool {
    &&& b.pos == pos
    &&& b.dir == Some(dir)
    &&& b.color == color
    &&& b.city_id == city_id
    &&& b.vehicle_on_the_way is None
    &&& b.arrived_count == 0
    &&& 0 <= b.production_tics < SPAWNER_UPDATE_TICKS
    &&& b.production_rate == SPAWNER_UPDATE_TICKS
    &&& b.building_type == BuildingType::Spawner
}

/// The side of the tile `p` of a house by which vehicles leave (`leaving`)
/// or arrive: one of the turns of `p`'s 2x2 block.
pub open spec fn side_dir(p: Position, leaving: bool) -> Direction {
    if leaving {
        spec_default_connections(p)[1]
    } else {
        spec_default_connections(p)[0].spec_inverse()
    }
}

/// The first of the tiles `ps` whose side (see `side_dir`) faces a road, with that side.
pub open spec fn first_road_side(
    g: Seq<Seq<(TileView, TileView)>>,
    ps: Seq<Position>,
    leaving: bool,
) -> Option<(Position, Direction)>
    decreases ps.len(),
{
    if ps.len() == 0 {
        None
    } else {
        let d = side_dir(ps[0], leaving);
        if spec_tile_at(g, plus(ps[0], d)) matches Some(TileView::Road(_)) {
            Some((ps[0], d))
        } else {
            first_road_side(g, ps.drop_first(), leaving)
        }
    }
}

/// The tiles a building covers, row by row.
pub open spec fn footprint(b: Building) -> Seq<Position> {
    area_from(b.pos, b.pos.x as int, b.pos.y as int, spec_building_size())
}

/// Where vehicles leave building `b` and in which direction they drive off.
pub open spec fn spec_spawn_pos(b: Building, g: Seq<Seq<(TileView, TileView)>>) -> Option<
    (Position, Direction),
> {
    match b.dir {
        Some(d) => Some((spec_corner_pos(b.pos, d.spec_inverse()), d.spec_inverse().spec_inverse())),
        None => first_road_side(g, footprint(b), true),
    }
}

/// Where vehicles bound for building `b` stop, and the direction from there
/// towards the road they come by.
pub open spec fn spec_destination_pos(b: Building, g: Seq<Seq<(TileView, TileView)>>) -> Option<
    (Position, Direction),
> {
    match b.dir {
        Some(d) => Some((spec_corner_pos(b.pos, d), d.spec_inverse())),
        None => first_road_side(g, footprint(b), false),
    }
}

/// A building stands on a grid of at most 4096 by 4096 tiles, on one of the
/// two layers, and faces a direction that can be turned around.
pub open spec fn placed(b: Building) -> bool {
    &&& 0 <= b.pos.x <= 0x1000
    &&& 0 <= b.pos.y <= 0x1000
    &&& 0 <= b.pos.z <= 1
    &&& b.dir matches Some(d) ==> d.x != i8::MIN && d.y != i8::MIN
}

/// The side found by `first_road_side` is one of the tiles searched, with its side.
proof fn lemma_first_road_side(g: Seq<Seq<(TileView, TileView)>>, ps: Seq<Position>, leaving: bool)
    ensures
        first_road_side(g, ps, leaving) matches Some((p, d)) ==> ps.contains(p) && d == side_dir(
            p,
            leaving,
        ),
    decreases ps.len(),
{
    if ps.len() > 0 {
        lemma_first_road_side(g, ps.drop_first(), leaving);
        if let Some((p, d)) = first_road_side(g, ps.drop_first(), leaving) {
            let k = choose|k: int| 0 <= k < ps.drop_first().len() && ps.drop_first()[k] == p;
            assert(ps[k + 1] == p);
        }
    }
}

/// A placed building's spawn and stop tiles fit, and so does the step from the stop.
pub proof fn lemma_placed_sides_fit(b: Building, g: Seq<Seq<(TileView, TileView)>>)
    requires
        placed(b),
    ensures
        sides_fit(b),
        spec_destination_pos(b, g) matches Some((p, d)) ==> plus_fits(p, d),
{
    if b.dir is None {
        lemma_first_road_side(g, footprint(b), false);
        lemma_area_from_bounds(b.pos, b.pos.x as int, b.pos.y as int, spec_building_size());
        if let Some((p, d)) = spec_destination_pos(b, g) {
            let k = choose|k: int| 0 <= k < footprint(b).len() && footprint(b)[k] == p;
            assert(footprint(b)[k] == p);
        }
    }
}

/// What `spawn_pos` and `destination_pos` need to stay inside the integer ranges.
pub open spec fn sides_fit(b: Building) -> bool {
    match b.dir {
        Some(d) => d.x != i8::MIN && d.y != i8::MIN && plus_fits(b.pos, Direction::down_right()),
        None => 0 <= b.pos.x && 0 <= b.pos.y && area_fits(b.pos, spec_building_size()),
    }
}

/// Whether building `b` sends a vehicle on this tick, and `b` after the tick.
pub open spec fn spec_building_update(b: Building) -> (bool, Building) {
    if b.building_type != BuildingType::Station {
        if b.production_tics + 1 >= b.production_rate {
            (true, Building { production_tics: 0, ..b })
        } else {
            (false, Building { production_tics: (b.production_tics + 1) as i32, ..b })
        }
    } else {
        (false, b)
    }
}

/// Building `b` after a trip to it ended, in success or not.
pub open spec fn spec_update_arrived(b: Building, success: bool) -> Building {
    Building {
        arrived_count: if success {
            if b.arrived_count < ARRIVED_GOAL {
                (b.arrived_count + 1) as i32
            } else {
                b.arrived_count
            }
        } else if b.arrived_count > 0 {
            (b.arrived_count - 1) as i32
        } else {
            b.arrived_count
        },
        ..b
    }
}

impl Building {
    /// Whether the building is placed (see `placed`).
    pub fn is_placed(&self) -> (r: bool)
        ensures
            r == placed(*self),
    {
        let pos_ok = 0 <= self.pos.x && self.pos.x <= 0x1000 && 0 <= self.pos.y && self.pos.y <= 0x1000 && 0
            <= self.pos.z && self.pos.z <= 1;
        match self.dir {
            Some(d) => pos_ok && d.x != i8::MIN && d.y != i8::MIN,
            None => pos_ok,
        }
    }

    /// Scans the footprint for the first tile whose side faces a road.
    fn find_road_side(&self, grid: &Grid, leaving: bool) -> (r: Option<(Position, Direction)>)
        requires
            self.dir is None,
            sides_fit(*self),
        ensures
            r == first_road_side(grid@, footprint(*self), leaving),
    {
        let mut it = self.pos.iter_area(building_size());
        proof {
            lemma_area_from_bounds(self.pos, self.pos.x as int, self.pos.y as int, spec_building_size());
        }
        let ghost all = footprint(*self);
        loop
            invariant
                it.wf(),
                all == footprint(*self),
                first_road_side(grid@, it@, leaving) == first_road_side(grid@, all, leaving),
                forall|i: int|
                    0 <= i < it@.len() ==> 0 <= (#[trigger] it@[i]).x < i16::MAX && 0 <= it@[i].y
                        < i16::MAX,
            decreases it@.len(),
        {
            let ghost before = it@;
            match it.next() {
                Some(p) => {
                    assert forall|i: int| 0 <= i < it@.len() implies 0 <= (#[trigger] it@[i]).x
                        < i16::MAX && 0 <= it@[i].y < i16::MAX by {
                        assert(it@[i] == before[i + 1]);
                    }
                    let conns = p.default_connections();
                    let dir = if leaving {
                        conns[1]
                    } else {
                        conns[0].inverse()
                    };
                    let pos_adj = p + dir;
                    match grid.get_tile(&pos_adj) {
                        Some(Tile::Road(_)) => {
                            return Some((p, dir));
                        },
                        _ => {},
                    }
                },
                None => {
                    return None;
                },
            }
        }
    }

    pub fn new_house(pos: Position, city_id: Id) -> (b: Self)
        ensures
            is_new_house(b, pos, city_id),
    {
        Building {
            pos,
            dir: None,
            color: SpawnerColors::Blue,
            city_id,
            vehicle_on_the_way: None,
            arrived_count: 0,
            production_tics: gen_range_u32(0, HOUSE_UPDATE_TICKS as u32) as i32,
            production_rate: HOUSE_UPDATE_TICKS,
            building_type: BuildingType::House,
        }
    }

    /// Builds a station; for now it behaves exactly like a house.
    pub fn new_station(pos: Position, city_id: Id) -> (b: Self)
        ensures
            is_new_house(b, pos, city_id),
    {
        Building {
            pos,
            dir: None,
            color: SpawnerColors::Blue,
            city_id,
            vehicle_on_the_way: None,
            arrived_count: 0,
            production_tics: gen_range_u32(0, HOUSE_UPDATE_TICKS as u32) as i32,
            production_rate: HOUSE_UPDATE_TICKS,
            building_type: BuildingType::House,
        }
    }

    pub fn new_spawner(pos: Position, dir: Direction, color: SpawnerColors, city_id: Id) -> (b:
        Self)
        ensures
            is_new_spawner(b, pos, dir, color, city_id),
    {
        Building {
            pos,
            dir: Some(dir),
            color,
            city_id,
            vehicle_on_the_way: None,
            arrived_count: 0,
            production_tics: gen_range_u32(0, SPAWNER_UPDATE_TICKS as u32) as i32,
            production_rate: SPAWNER_UPDATE_TICKS,
            building_type: BuildingType::Spawner,
        }
    }

    /// Where vehicles leave this building: next to the corner its direction
    /// points away from, or else the first footprint tile facing a road.
    pub fn spawn_pos(&self, grid: &Grid) -> (r: Option<(Position, Direction)>)
        requires
            sides_fit(*self),
        ensures
            r == spec_spawn_pos(*self, grid@),
    {
        match self.dir {
            Some(dir) => {
                let dir = dir.inverse();
                Some((self.pos.corner_pos(dir), dir.inverse()))
            },
            None => self.find_road_side(grid, true),
        }
    }

    /// Where vehicles bound for this building stop, and which way the road is.
    pub fn destination_pos(&self, grid: &Grid) -> (r: Option<(Position, Direction)>)
        requires
            sides_fit(*self),
        ensures
            r == spec_destination_pos(*self, grid@),
    {
        match self.dir {
            Some(dir) => Some((self.pos.corner_pos(dir), dir.inverse())),
            None => self.find_road_side(grid, false),
        }
    }

    /// Counts an arrival (capped at the goal) or a failed trip (floored at zero).
    pub fn update_arrived(&mut self, success: bool)
        ensures
            *final(self) == spec_update_arrived(*old(self), success),
            final(self).arrived_count == (if success {
                if old(self).arrived_count < ARRIVED_GOAL {
                    old(self).arrived_count + 1
                } else {
                    old(self).arrived_count as int
                }
            } else if old(self).arrived_count > 0 {
                old(self).arrived_count - 1
            } else {
                old(self).arrived_count as int
            }),
            *final(self) == (Building { arrived_count: final(self).arrived_count, ..*old(self) }),
    {
        if success {
            if self.arrived_count < ARRIVED_GOAL {
                self.arrived_count = self.arrived_count + 1;
            }
        } else if self.arrived_count > 0 {
            self.arrived_count = self.arrived_count - 1;
        }
    }

    pub fn arrived_goal_met(&self) -> (r: bool)
        ensures
            r == (self.arrived_count >= ARRIVED_GOAL),
    {
        self.arrived_count >= ARRIVED_GOAL
    }

    /// Advances the production counter; `true` when a vehicle is due to leave
    /// (the counter then starts over). Stations never produce.
    pub fn update(&mut self) -> (r: bool)
        requires
            old(self).building_type != BuildingType::Station ==> old(self).production_tics < i32::MAX,
        ensures
            (r, *final(self)) == spec_building_update(*old(self)),
            old(self).building_type == BuildingType::Station ==> !r && *final(self) == *old(self),
            old(self).building_type != BuildingType::Station ==> {
                &&& r == (old(self).production_tics + 1 >= old(self).production_rate)
                &&& final(self).production_tics == (if r { 0 } else { old(self).production_tics + 1 })
                &&& *final(self) == (Building { production_tics: final(self).production_tics, ..*old(self) })
            },
    {
        if self.building_type != BuildingType::Station {
            self.production_tics = self.production_tics + 1;
            if self.production_tics >= self.production_rate {
                self.production_tics = 0;
                true
            } else {
                false
            }
        } else {
            false
        }
    }
}

} // verus!
