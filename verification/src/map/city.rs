use vstd::prelude::*;

use crate::hash_map_id::Id;
use crate::rng::{gen_range_u32, gen_range_usize};
use super::build::{area_clear, BuildError};
use super::building::{is_new_house, placed, Building};
use super::direction::{is_cardinal, spec_all_directions, Direction};
use super::grid::{lemma_tile_in_box, spec_tile_at, Grid};
use super::path::in_route_box;
use super::position::{plus, Position};
use super::tile::TileView;

verus! {

/// Ticks between two growth steps of a city.
pub const CITY_GROW_TICKS: u32 = 160;

/// How many steps a city looks along a line for room for a new house; more
/// than any line across a grid within the route bounds.
pub const GROW_REACH: u32 = 0x1002;

/// A city: its houses and when it grows next.
#[derive(Clone, PartialEq, Eq, Debug)]
pub struct City {
    pub pos: Position,
    pub name: String,
    pub grow_ticks: u32,
    pub grow_rate: u32,
    pub id: Id,
    pub houses: Vec<Id>,
}

/// Where a city grows a house when it looks from `pos` along `dir`: the first
/// position past `pos` whose 2x2 area is free, unless the line leaves the
/// grid first; `fuel` bounds the steps.
pub open spec fn grow_site(g: Seq<Seq<(TileView, TileView)>>, pos: Position, dir: Direction, fuel: nat) -> Option<
    Position,
>
    decreases fuel,
{
    if fuel == 0 {
        None
    } else {
        let next = plus(pos, dir);
        match area_clear(g, next, (2, 2)) {
            Ok(()) => Some(next),
            Err(BuildError::OccupiedTile) => grow_site(g, next, dir, (fuel - 1) as nat),
            Err(BuildError::InvalidTile) => None,
        }
    }
}

/// Steps from `pos` along the cardinal `dir` until the line has left a grid
/// of at most 4096 by 4096 tiles.
pub open spec fn steps_to_edge(pos: Position, dir: Direction) -> int {
    if dir.x > 0 {
        0x1001 - pos.x
    } else if dir.x < 0 {
        pos.x + 1
    } else if dir.y > 0 {
        0x1001 - pos.y
    } else {
        pos.y + 1
    }
}

/// An area whose answer is `OccupiedTile` starts on the grid.
proof fn lemma_occupied_on_grid(g: Seq<Seq<(TileView, TileView)>>, p: Position)
    requires
        area_clear(g, p, (2, 2)) == Err::<(), BuildError>(BuildError::OccupiedTile),
    ensures
        spec_tile_at(g, p) is Some,
{
    reveal_with_fuel(super::build::area_clear_from, 2);
    reveal_with_fuel(super::build::column_clear, 2);
    assert(super::build::shifted(p, 0, 0) == p);
}

/// A grow site lies on the grid.
pub proof fn lemma_grow_site_on_grid(g: Seq<Seq<(TileView, TileView)>>, pos: Position, dir: Direction, fuel: nat)
    ensures
        grow_site(g, pos, dir, fuel) matches Some(p) ==> spec_tile_at(g, p) is Some,
    decreases fuel,
{
    if fuel > 0 {
        let next = plus(pos, dir);
        reveal_with_fuel(super::build::area_clear_from, 2);
        reveal_with_fuel(super::build::column_clear, 2);
        assert(super::build::shifted(next, 0, 0) == next);
        lemma_grow_site_on_grid(g, next, dir, (fuel - 1) as nat);
    }
}

/// Building `b` is a new house of city `c`, at the grow site seen from one of
/// its houses along one of the four cardinal directions.
pub open spec fn grown_from(c: City, grid: Grid, b: Building) -> bool {
    exists|h: Id, d: Direction|
        #![trigger c.houses@.contains(h), is_cardinal(d)]
        c.houses@.contains(h) && is_cardinal(d) && grid.buildings@.contains_key(h) && grow_site(
            grid@,
            grid.buildings@[h].pos,
            d,
            GROW_REACH as nat,
        ) == Some(b.pos) && is_new_house(b, b.pos, c.id)
}

/// Every house of city `c` is on the map and has a grow site along every
/// cardinal direction, so whichever house and direction are picked, a house grows.
pub open spec fn can_grow_anywhere(c: City, grid: Grid) -> bool {
    forall|h: Id, d: Direction|
        #![trigger c.houses@.contains(h), is_cardinal(d)]
        c.houses@.contains(h) && is_cardinal(d) ==> grid.buildings@.contains_key(h) && grow_site(
            grid@,
            grid.buildings@[h].pos,
            d,
            GROW_REACH as nat,
        ) is Some
}

/// Whether city `c` is due to grow on the next tick.
pub open spec fn due_to_grow(c: City) -> bool {
    c.grow_ticks + 1 > c.grow_rate
}

/// What a tick of city `c` on `grid` may give: a house only when the city is
/// due, and then one grown from it; and a house for sure when the city is due
/// and can grow anywhere.
pub open spec fn update_result(c: City, grid: Grid, r: Option<Building>) -> bool {
    &&& r matches Some(b) ==> due_to_grow(c) && grown_from(c, grid, b)
    &&& due_to_grow(c) && can_grow_anywhere(c, grid) ==> r is Some
}

/// The city's counter after a tick: back to 0 once it passes the rate.
pub open spec fn ticked(c: City) -> City {
    if due_to_grow(c) {
        City { grow_ticks: 0, ..c }
    } else {
        City { grow_ticks: (c.grow_ticks + 1) as u32, ..c }
    }
}

impl City {
    pub fn new(id: Id, pos: Position, name: String) -> (r: Self)
        ensures
            r.pos == pos,
            r.name == name,
            r.grow_ticks < CITY_GROW_TICKS,
            r.grow_rate == CITY_GROW_TICKS,
            r.id == id,
            r.houses@ == Seq::<Id>::empty(),
    {
        City {
            pos,
            name,
            grow_ticks: gen_range_u32(0, CITY_GROW_TICKS),
            grow_rate: CITY_GROW_TICKS,
            id,
            houses: Vec::new(),
        }
    }

    /// One of the city's houses, picked at random.
    pub fn random_house(&self) -> (r: Id)
        requires
            0 < self.houses@.len() <= 0x1_0000_0000,
        ensures
            self.houses@.contains(r),
    {
        let index = gen_range_usize(0, self.houses.len());
        self.houses[index]
    }

    /// The house the city grows from house `start_house_id` looking along
    /// `dir`: a new house of this city at the grow site, if there is one.
    pub fn grow_from(&self, grid: &Grid, start_house_id: Id, dir: Direction) -> (r: Option<Building>)
        requires
            grid.within_route_bounds(),
            grid.buildings_placed(),
            is_cardinal(dir),
        ensures
            r is Some <==> grid.buildings@.contains_key(start_house_id) && grow_site(
                grid@,
                grid.buildings@[start_house_id].pos,
                dir,
                GROW_REACH as nat,
            ) is Some,
            r matches Some(b) ==> is_new_house(
                b,
                grow_site(grid@, grid.buildings@[start_house_id].pos, dir, GROW_REACH as nat)->0,
                self.id,
            ),
    {
        let building = match grid.buildings.hash_map.get(&start_house_id) {
            Some(b) => *b,
            None => {
                return None;
            },
        };
        assert(placed(grid.buildings@[start_house_id]));
        let mut building_pos = building.pos;
        let mut fuel: u32 = GROW_REACH;
        let ghost start = building.pos;
        loop
            invariant
                grid.within_route_bounds(),
                is_cardinal(dir),
                grid.buildings@.contains_key(start_house_id),
                start == grid.buildings@[start_house_id].pos,
                0 <= steps_to_edge(building_pos, dir),
                fuel >= steps_to_edge(building_pos, dir) + 1,
                -1 <= building_pos.x <= 0x1001,
                -1 <= building_pos.y <= 0x1001,
                0 <= building_pos.z <= 1,
                grow_site(grid@, start, dir, GROW_REACH as nat) == grow_site(grid@, building_pos, dir, fuel as nat),
            decreases steps_to_edge(building_pos, dir),
        {
            let pos = building_pos + dir;
            building_pos = pos;
            match grid.is_area_clear(&pos, (2, 2)) {
                Ok(()) => {
                    return Some(Building::new_house(pos, self.id));
                },
                Err(BuildError::OccupiedTile) => {
                    proof {
                        lemma_occupied_on_grid(grid@, pos);
                        lemma_tile_in_box(grid@, pos);
                    }
                    fuel = fuel - 1;
                },
                Err(BuildError::InvalidTile) => {
                    return None;
                },
            }
        }
    }

    /// Grows a house next to one of the city's houses, picked at random,
    /// along a random cardinal direction.
    pub fn grow_building(&self, grid: &Grid) -> (r: Option<Building>)
        requires
            0 < self.houses@.len() <= 0x1_0000_0000,
            grid.within_route_bounds(),
            grid.buildings_placed(),
        ensures
            r matches Some(b) ==> grown_from(*self, *grid, b),
            can_grow_anywhere(*self, *grid) ==> r is Some,
    {
        let start_house_id = self.random_house();
        let dir = Direction::random();
        let r = self.grow_from(grid, start_house_id, dir);
        proof {
            if can_grow_anywhere(*self, *grid) {
                assert(self.houses@.contains(start_house_id) && is_cardinal(dir));
            }
        }
        r
    }

    /// Counts a tick; once more than `grow_rate` have passed the counter
    /// starts over and the city tries to grow a house.
    pub fn update(&mut self, grid: &Grid) -> (r: Option<Building>)
        requires
            old(self).grow_ticks < u32::MAX,
            old(self).houses@.len() <= 0x1_0000_0000,
            old(self).grow_ticks + 1 > old(self).grow_rate ==> 0 < old(self).houses@.len(),
            grid.within_route_bounds(),
            grid.buildings_placed(),
        ensures
            old(self).grow_ticks + 1 > old(self).grow_rate ==> *final(self) == (City { grow_ticks: 0, ..*old(self) }),
            old(self).grow_ticks + 1 <= old(self).grow_rate ==> *final(self) == (City {
                grow_ticks: (old(self).grow_ticks + 1) as u32,
                ..*old(self)
            }) && r is None,
            update_result(*old(self), *grid, r),
    {
        self.grow_ticks = self.grow_ticks + 1;
        if self.grow_ticks > self.grow_rate {
            self.grow_ticks = 0;
            self.grow_building(grid)
        } else {
            None
        }
    }
}

} // verus!
