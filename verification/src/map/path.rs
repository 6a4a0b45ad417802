use vstd::prelude::*;
use vstd::arithmetic::div_mod::lemma_fundamental_div_mod_converse;
use vstd::set_lib::{lemma_int_range, lemma_len_subset, set_int_range};
use pathfinding::prelude::{astar, bfs_reach};

use crate::hash_map_id::Id;
use super::building::{lemma_placed_sides_fit, sides_fit, spec_destination_pos, Building, BuildingType};
use super::direction::Direction;
use super::grid::{spec_set_tile, spec_tile_at, Grid};
use super::position::{abs, plus, plus_fits, spec_default_connections, Position};
use super::tile::{
    spec_is_reserved, spec_reserve, spec_unreserve, tile_cost, Reservation, ReservationError, RoadView, Tick, Tile,
    TileView,
};

verus! {

pub type PathCost = u32;

/// A route and what driving it costs, or `None` where there is none.
pub type Path = Option<(Vec<Position>, PathCost)>;

/// The directions by which a road at `pos` can be left: its connections, or
/// for a road without any, the first turn of its 2x2 block.
pub open spec fn exit_dirs(road: RoadView, pos: Position) -> Seq<Direction> {
    if road.connections.len() > 0 {
        road.connections
    } else {
        spec_default_connections(pos).take(1)
    }
}

/// The tiles reached from `pos` by the steps `dirs`, each with what entering it
/// costs; steps that leave the grid are dropped.
pub open spec fn steps_along(
    g: Seq<Seq<(TileView, TileView)>>,
    pos: Position,
    dirs: Seq<Direction>,
) -> Seq<(Position, u32)>
    decreases dirs.len(),
{
    if dirs.len() == 0 {
        seq![]
    } else {
        let rest = steps_along(g, pos, dirs.drop_last());
        let d = dirs.last();
        if plus_fits(pos, d) && spec_tile_at(g, plus(pos, d)) is Some {
            rest.push((plus(pos, d), tile_cost(spec_tile_at(g, plus(pos, d))->0)))
        } else {
            rest
        }
    }
}

/// Where a vehicle on the road at `pos` can drive next, and at what cost.
pub open spec fn spec_road_successors(g: Seq<Seq<(TileView, TileView)>>, pos: Position) -> Seq<
    (Position, u32),
> {
    match spec_tile_at(g, pos) {
        Some(TileView::Road(road)) => steps_along(g, pos, exit_dirs(road, pos)),
        _ => seq![],
    }
}

/// Where a route search is headed.
#[derive(Clone, Copy, PartialEq, Eq, Structural, Debug)]
pub enum PathGoal {
    /// One given tile.
    Tile(Position),
    /// Any tile of the building with this id; the position is near it.
    Building(Id, Position),
}

/// `p` is a tile where a search for `goal` ends.
pub open spec fn goal_reached(g: Seq<Seq<(TileView, TileView)>>, goal: PathGoal, p: Position) -> bool {
    match goal {
        PathGoal::Tile(end) => p == end,
        PathGoal::Building(id, _) => match spec_tile_at(g, p) {
            Some(TileView::Building(b)) => b == id,
            Some(TileView::Road(road)) => road.station == Some(id),
            _ => false,
        },
    }
}

/// The search's estimate of what is left from `p`: a third of the distance,
/// which never overestimates since no step costs less than one.
pub open spec fn goal_estimate(goal: PathGoal, p: Position) -> u32 {
    let target = match goal {
        PathGoal::Tile(end) => end,
        PathGoal::Building(_, near) => near,
    };
    ((abs(p.x - target.x) + abs(p.y - target.y)) / 3) as u32
}

impl PathGoal {
    /// The estimate that guides the search towards this goal.
    pub fn estimate(&self, p: &Position) -> (r: u32)
        ensures
            r == goal_estimate(*self, *p),
    {
        let target = match self {
            PathGoal::Tile(end) => *end,
            PathGoal::Building(_, near) => *near,
        };
        let dx: i32 = p.x as i32 - target.x as i32;
        let dy: i32 = p.y as i32 - target.y as i32;
        let ax: u32 = if dx < 0 { (-dx) as u32 } else { dx as u32 };
        let ay: u32 = if dy < 0 { (-dy) as u32 } else { dy as u32 };
        (ax + ay) / 3
    }
}

/// What entering each tile of `path` after the first costs, summed.
pub open spec fn route_cost(g: Seq<Seq<(TileView, TileView)>>, path: Seq<Position>) -> int
    decreases path.len(),
{
    if path.len() <= 1 {
        0
    } else {
        route_cost(g, path.drop_last()) + match spec_tile_at(g, path.last()) {
            Some(t) => tile_cost(t) as int,
            None => 0,
        }
    }
}

/// `path` is a route on the roads of `g` from `start` to a tile where `goal`
/// is reached, visiting no tile twice, and `cost` is what it costs.
pub open spec fn is_route(
    g: Seq<Seq<(TileView, TileView)>>,
    start: Position,
    goal: PathGoal,
    path: Seq<Position>,
    cost: u32,
) -> bool {
    &&& path.len() >= 1
    &&& path[0] == start
    &&& goal_reached(g, goal, path.last())
    &&& forall|i: int|
        0 <= i < path.len() - 1 ==> spec_road_successors(g, #[trigger] path[i]).contains(
            (path[i + 1], tile_cost(spec_tile_at(g, path[i + 1])->0)),
        )
    &&& path.no_duplicates()
    &&& cost == route_cost(g, path)
}

/// No route on the roads of `g` leads from `start` to where `goal` is reached.
pub open spec fn no_route(g: Seq<Seq<(TileView, TileView)>>, start: Position, goal: PathGoal) -> bool {
    forall|path: Seq<Position>, cost: u32| !#[trigger] is_route(g, start, goal, path, cost)
}

/// No route from `start` to `goal` costs less than `cost`.
pub open spec fn cheapest(g: Seq<Seq<(TileView, TileView)>>, start: Position, goal: PathGoal, cost: u32) -> bool {
    forall|path: Seq<Position>, c: u32| #[trigger] is_route(g, start, goal, path, c) ==> cost <= c
}

/// The search's estimate never exceeds what a route from a tile to `goal`
/// really costs.
pub open spec fn estimate_admissible(g: Seq<Seq<(TileView, TileView)>>, goal: PathGoal) -> bool {
    forall|p: Position, path: Seq<Position>, c: u32| #[trigger] is_route(g, p, goal, path, c) ==> goal_estimate(goal, p) <= c
}

/// Every step a vehicle can take on `g` moves at most one tile on the
/// ground plane and costs at least one.
pub open spec fn unit_steps(g: Seq<Seq<(TileView, TileView)>>) -> bool {
    forall|p: Position, s: (Position, u32)|
        #[trigger] spec_road_successors(g, p).contains(s) ==> abs(s.0.x - p.x) + abs(s.0.y - p.y) <= 1 && s.1 >= 1
}

/// The ground distance between two tiles.
pub open spec fn ground_distance(a: Position, b: Position) -> int {
    abs(a.x - b.x) + abs(a.y - b.y)
}

/// On a grid of unit steps, the first `n` tiles of a route cost at least the
/// ground distance from its first tile to its `n`-th.
proof fn lemma_route_cost_distance(
    g: Seq<Seq<(TileView, TileView)>>,
    path: Seq<Position>,
    n: int,
)
    requires
        unit_steps(g),
        1 <= n <= path.len(),
        forall|i: int|
            0 <= i < path.len() - 1 ==> spec_road_successors(g, #[trigger] path[i]).contains(
                (path[i + 1], tile_cost(spec_tile_at(g, path[i + 1])->0)),
            ),
    ensures
        route_cost(g, path.take(n)) >= ground_distance(path[0], path[n - 1]),
    decreases n,
{
    if n > 1 {
        lemma_route_cost_distance(g, path, n - 1);
        let t = path.take(n);
        assert(t.drop_last() =~= path.take(n - 1));
        let s = (path[n - 1], tile_cost(spec_tile_at(g, path[n - 1])->0));
        assert(spec_road_successors(g, path[n - 2]).contains(s));
        lemma_successors_on_grid(g, path[n - 2], s);
    }
}

/// Law: on a grid whose every step moves at most one tile and costs at least
/// one, the estimate towards a tile never exceeds what a route there costs,
/// so the route the search finds to a tile is the cheapest.
pub proof fn lemma_tile_estimate_admissible(g: Seq<Seq<(TileView, TileView)>>, end: Position)
    requires
        unit_steps(g),
    ensures
        estimate_admissible(g, PathGoal::Tile(end)),
{
    assert forall|p: Position, path: Seq<Position>, c: u32| #[trigger]
        is_route(g, p, PathGoal::Tile(end), path, c) implies goal_estimate(PathGoal::Tile(end), p) <= c by {
        lemma_route_cost_distance(g, path, path.len() as int);
        assert(path.take(path.len() as int) =~= path);
    }
}

/// Law: on a grid whose every step moves at most one tile and costs at least
/// one, the estimate towards a building never exceeds what a route there
/// costs, when every tile where the search for the building ends lies within
/// two tiles of the position the estimate aims at (as every tile of a 2x2
/// block does of its corner).
pub proof fn lemma_building_estimate_admissible(g: Seq<Seq<(TileView, TileView)>>, id: Id, near: Position)
    requires
        unit_steps(g),
        forall|q: Position|
            #[trigger] goal_reached(g, PathGoal::Building(id, near), q) ==> ground_distance(q, near) <= 2,
    ensures
        estimate_admissible(g, PathGoal::Building(id, near)),
{
    let goal = PathGoal::Building(id, near);
    assert forall|p: Position, path: Seq<Position>, c: u32| #[trigger]
        is_route(g, p, goal, path, c) implies goal_estimate(goal, p) <= c by {
        lemma_route_cost_distance(g, path, path.len() as int);
        assert(path.take(path.len() as int) =~= path);
        let q = path.last();
        assert(goal_reached(g, goal, q));
        let dq = ground_distance(p, q);
        let dn = ground_distance(p, near);
        assert(dn <= dq + 2);
        assert(dq <= c);
        assert(dn / 3 <= c) by (nonlinear_arith)
            requires
                dn <= dq + 2,
                0 <= dq <= c,
                0 <= dn,
                dq == 0 ==> dn <= 2,
        ;
    }
}

/// Law: on a grid of unit steps, `find_path` to a building other than a
/// house whose goal tiles lie within two tiles of its position finds a
/// cheapest route: no route from the first tile onto the building costs less.
pub proof fn lemma_find_path_to_building_cheapest(
    g: Seq<Seq<(TileView, TileView)>>,
    buildings: Map<Id, Building>,
    start: (Position, Direction),
    end: Id,
    r: Option<(Seq<Position>, u32)>,
)
    requires
        path_facts(g, buildings, start, end, r),
        unit_steps(g),
        buildings.contains_key(end),
        buildings[end].building_type != BuildingType::House,
        forall|q: Position|
            #[trigger] goal_reached(g, PathGoal::Building(end, buildings[end].pos), q) ==> ground_distance(
                q,
                buildings[end].pos,
            ) <= 2,
    ensures
        r matches Some((p, c)) ==> cheapest(g, plus(start.0, start.1), PathGoal::Building(end, buildings[end].pos), c),
{
    lemma_building_estimate_admissible(g, end, buildings[end].pos);
}

/// What the A* search promises of its answer `r` for `start` and `goal` on
/// `g`: a route when it finds one, the cheapest when the estimate never
/// overestimates, and nothing only when no route exists.
pub open spec fn search_facts(
    g: Seq<Seq<(TileView, TileView)>>,
    start: Position,
    goal: PathGoal,
    r: Option<(Seq<Position>, u32)>,
) -> bool {
    &&& r matches Some((p, c)) ==> is_route(g, start, goal, p, c)
    &&& r matches Some((p, c)) ==> (estimate_admissible(g, goal) ==> cheapest(g, start, goal, c))
    &&& r is None ==> no_route(g, start, goal)
}

/// Every tile that the steps lead to is on the grid.
proof fn lemma_steps_on_grid(g: Seq<Seq<(TileView, TileView)>>, pos: Position, dirs: Seq<Direction>, i: int)
    requires
        0 <= i < steps_along(g, pos, dirs).len(),
    ensures
        spec_tile_at(g, steps_along(g, pos, dirs)[i].0) is Some,
    decreases dirs.len(),
{
    if dirs.len() > 0 {
        if i < steps_along(g, pos, dirs.drop_last()).len() {
            lemma_steps_on_grid(g, pos, dirs.drop_last(), i);
        }
    }
}

/// A vehicle only ever drives onto tiles of the grid.
pub proof fn lemma_successors_on_grid(g: Seq<Seq<(TileView, TileView)>>, pos: Position, next: (Position, u32))
    requires
        spec_road_successors(g, pos).contains(next),
    ensures
        spec_tile_at(g, next.0) is Some,
{
    let k = choose|k: int| 0 <= k < spec_road_successors(g, pos).len() && spec_road_successors(g, pos)[k] == next;
    if let Some(TileView::Road(road)) = spec_tile_at(g, pos) {
        lemma_steps_on_grid(g, pos, exit_dirs(road, pos), k);
    }
}

/// A number for each tile of a grid of at most 4096 by 4096 tiles on two layers.
pub open spec fn cell_index(p: Position) -> int {
    p.x + 0x1000 * p.y + 0x100_0000 * p.z
}

pub open spec fn in_route_box(p: Position) -> bool {
    0 <= p.x < 0x1000 && 0 <= p.y < 0x1000 && 0 <= p.z <= 1
}

proof fn lemma_cell_index_injective(a: Position, b: Position)
    requires
        in_route_box(a),
        in_route_box(b),
        cell_index(a) == cell_index(b),
    ensures
        a == b,
{
    let ua = a.y + 0x1000 * a.z;
    let ub = b.y + 0x1000 * b.z;
    lemma_fundamental_div_mod_converse(cell_index(a), 0x1000, ua, a.x as int);
    lemma_fundamental_div_mod_converse(cell_index(b), 0x1000, ub, b.x as int);
    lemma_fundamental_div_mod_converse(ua, 0x1000, a.z as int, a.y as int);
    lemma_fundamental_div_mod_converse(ub, 0x1000, b.z as int, b.y as int);
}

/// Each tile costs at most three to enter.
proof fn lemma_route_cost_bound(g: Seq<Seq<(TileView, TileView)>>, path: Seq<Position>)
    requires
        path.len() >= 1,
    ensures
        0 <= route_cost(g, path) <= 3 * (path.len() - 1),
    decreases path.len(),
{
    if path.len() > 1 {
        lemma_route_cost_bound(g, path.drop_last());
    }
}

impl Grid {
    /// A route on a grid within the route bounds visits at most every tile once
    /// besides its start, so it and its cost stay small.
    pub proof fn lemma_route_bounds(&self, start: Position, goal: PathGoal, path: Seq<Position>, cost: u32)
        requires
            self.within_route_bounds(),
            is_route(self@, start, goal, path, cost),
        ensures
            path.len() <= 0x200_0000 + 1,
            cost <= 3 * (path.len() - 1),
    {
        let g = self@;
        lemma_route_cost_bound(g, path);
        let q = path.drop_first();
        assert forall|i: int| 0 <= i < q.len() implies in_route_box(#[trigger] q[i]) by {
            assert(spec_road_successors(g, path[i]).contains(
                (path[i + 1], tile_cost(spec_tile_at(g, path[i + 1])->0)),
            ));
            lemma_successors_on_grid(g, path[i], (path[i + 1], tile_cost(spec_tile_at(g, path[i + 1])->0)));
            assert(q[i] == path[i + 1]);
            assert(g[q[i].y as int].len() <= 0x1000);
        }
        let m = q.map_values(|p: Position| cell_index(p));
        assert forall|i: int, j: int| 0 <= i < m.len() && 0 <= j < m.len() && i != j implies m[i] != m[j] by {
            assert(q[i] == path[i + 1] && q[j] == path[j + 1]);
            if m[i] == m[j] {
                lemma_cell_index_injective(q[i], q[j]);
            }
        }
        assert(m.no_duplicates());
        m.unique_seq_to_set();
        lemma_int_range(0, 0x200_0000);
        assert forall|v: int| m.to_set().contains(v) implies set_int_range(0, 0x200_0000).contains(v) by {
            let k = choose|k: int| 0 <= k < m.len() && m[k] == v;
            assert(in_route_box(q[k]));
        }
        lemma_len_subset(m.to_set(), set_int_range(0, 0x200_0000));
    }
}

/// The route that the A* search of the `pathfinding` crate finds on grid `g`
/// from `start` towards `goal`, with its cost.
pub uninterp spec fn searched_route(
    g: Seq<Seq<(TileView, TileView)>>,
    start: Position,
    goal: PathGoal,
) -> Option<(Seq<Position>, u32)>;

/// A path as plain values.
pub open spec fn path_view(p: Path) -> Option<(Seq<Position>, u32)> {
    match p {
        Some((v, c)) => Some((v@, c)),
        None => None,
    }
}

/// `route` with one more tile, `last`, that costs one to enter.
pub open spec fn extended_route(route: Option<(Seq<Position>, u32)>, last: Position) -> Option<
    (Seq<Position>, u32),
> {
    match route {
        Some((p, c)) => Some((p.push(last), (c + 1) as u32)),
        None => None,
    }
}

/// Appends the tile a vehicle stops on at a house to the route to the road
/// in front of it; the stop costs one more.
pub fn extend_route(route: Path, last: Position) -> (r: Path)
    requires
        route matches Some((_, c)) ==> c < u32::MAX,
    ensures
        path_view(r) == extended_route(path_view(route), last),
{
    match route {
        Some((mut path, cost)) => {
            path.push(last);
            Some((path, cost + 1))
        },
        None => None,
    }
}

/// What `find_path` needs to stay inside the integer ranges: the first step
/// fits, the grid is small enough for the search, and a house's stop is
/// next to a tile that fits too.
pub open spec fn path_request_fits(g: Grid, start: (Position, Direction), end: Id) -> bool {
    &&& plus_fits(start.0, start.1)
    &&& g.within_route_bounds()
    &&& g.buildings@.contains_key(end) && g.buildings@[end].building_type == BuildingType::House
        ==> {
        &&& sides_fit(g.buildings@[end])
        &&& spec_destination_pos(g.buildings@[end], g@) matches Some((p, d)) ==> plus_fits(p, d)
    }
}

/// A request from a tile whose first step fits, on a grid within the route
/// bounds whose buildings are placed, fits.
pub proof fn lemma_request_fits(g: Grid, start: (Position, Direction), end: Id)
    requires
        plus_fits(start.0, start.1),
        g.within_route_bounds(),
        g.buildings_placed(),
    ensures
        path_request_fits(g, start, end),
{
    if g.buildings@.contains_key(end) {
        lemma_placed_sides_fit(g.buildings@[end], g@);
    }
}

/// The route `find_path` gives a vehicle that leaves `start.0` towards
/// `start.1` for building `end`: none unless that first tile is a road and the
/// building exists. Houses are reached at their stop tile, one step off the
/// road; stations and spawners at any of their tiles.
pub open spec fn spec_find_path(g: Grid, start: (Position, Direction), end: Id) -> Option<
    (Seq<Position>, u32),
> {
    find_path_in(g@, g.buildings@, start, end)
}

/// `spec_find_path` over the grid's tiles `g` and its buildings.
pub open spec fn find_path_in(
    g: Seq<Seq<(TileView, TileView)>>,
    buildings: Map<Id, Building>,
    start: (Position, Direction),
    end: Id,
) -> Option<(Seq<Position>, u32)> {
    let path_start = plus(start.0, start.1);
    if !(spec_tile_at(g, path_start) matches Some(TileView::Road(_))) {
        None
    } else if !buildings.contains_key(end) {
        None
    } else {
        let b = buildings[end];
        if b.building_type == BuildingType::House {
            match spec_destination_pos(b, g) {
                None => None,
                Some((stop, dir)) => extended_route(
                    searched_route(g, path_start, PathGoal::Tile(plus(stop, dir))),
                    stop,
                ),
            }
        } else {
            searched_route(g, path_start, PathGoal::Building(end, b.pos))
        }
    }
}

/// What `find_path` promises of its answer `r`: nothing when the first
/// step is not onto a road, `end` is no building, or a house has no stop;
/// for a house, a route to the tile in front of its stop (see `search_facts`)
/// followed by the stop, which costs one more; for another building, a
/// route onto one of its tiles.
pub open spec fn path_facts(
    g: Seq<Seq<(TileView, TileView)>>,
    buildings: Map<Id, Building>,
    start: (Position, Direction),
    end: Id,
    r: Option<(Seq<Position>, u32)>,
) -> bool {
    let ps = plus(start.0, start.1);
    if !(spec_tile_at(g, ps) matches Some(TileView::Road(_))) || !buildings.contains_key(end) {
        r is None
    } else {
        let b = buildings[end];
        if b.building_type == BuildingType::House {
            match spec_destination_pos(b, g) {
                None => r is None,
                Some((stop, dir)) => {
                    let goal = PathGoal::Tile(plus(stop, dir));
                    &&& r matches Some((p, c)) ==> p.len() >= 1 && p.last() == stop && c >= 1 && search_facts(
                        g,
                        ps,
                        goal,
                        Some((p.drop_last(), (c - 1) as u32)),
                    )
                    &&& r is None ==> no_route(g, ps, goal)
                },
            }
        } else {
            search_facts(g, ps, PathGoal::Building(end, b.pos), r)
        }
    }
}

/// The tiles next to `pos` that a vehicle on it can drive to.
pub open spec fn road_neighbours(g: Seq<Seq<(TileView, TileView)>>, pos: Position) -> Seq<Position> {
    spec_road_successors(g, pos).map_values(|s: (Position, u32)| s.0)
}

/// The tiles that the breadth-first walk of the `pathfinding` crate reaches
/// over the roads of grid `g` from `start`, in the order it reaches them.
pub uninterp spec fn walked_tiles(g: Seq<Seq<(TileView, TileView)>>, start: Position) -> Seq<Position>;

/// `tiles` starts at `start`, holds no tile twice, reaches each later tile
/// from an earlier one, and leaves out no tile that one of them leads to.
pub open spec fn is_reach(g: Seq<Seq<(TileView, TileView)>>, start: Position, tiles: Seq<Position>) -> bool {
    &&& tiles.len() >= 1
    &&& tiles[0] == start
    &&& tiles.no_duplicates()
    &&& forall|i: int|
        0 < i < tiles.len() ==> exists|j: int|
            0 <= j < i && road_neighbours(g, tiles[j]).contains(#[trigger] tiles[i])
    &&& forall|i: int, q: Position|
        0 <= i < tiles.len() && #[trigger] road_neighbours(g, tiles[i]).contains(q) ==> tiles.contains(q)
}

impl Reservation {
    /// Takes this reservation's tile and span for vehicle `vehicle_id`, asked at `tick`.
    pub fn reserve(&self, grid: &mut Grid, vehicle_id: Id, tick: Tick) -> (r: Result<
        (),
        ReservationError,
    >)
        ensures
            match old(grid).tile_at(self.pos) {
                None => r == Err::<(), ReservationError>(ReservationError::TileInvalid) && *final(grid)
                    == *old(grid),
                Some(t) => {
                    let (res, nt) = spec_reserve(t, vehicle_id, self.pos, tick, self.start, self.end);
                    &&& r == (match res {
                        Ok(_) => Ok::<(), ReservationError>(()),
                        Err(e) => Err(e),
                    })
                    &&& final(grid)@ =~~= spec_set_tile(old(grid)@, self.pos, nt)
                    &&& final(grid).buildings == old(grid).buildings
                },
            },
            old(grid).wf() ==> final(grid).wf(),
    {
        match grid.reserve(&self.pos, vehicle_id, tick, self.start, self.end) {
            Ok(_) => Ok(()),
            Err(e) => Err(e),
        }
    }

    /// Lets go of whatever vehicle `vehicle_id` holds of this reservation's tile.
    pub fn unreserve(&self, grid: &mut Grid, vehicle_id: Id) -> (r: Result<(), ReservationError>)
        ensures
            match old(grid).tile_at(self.pos) {
                None => r == Err::<(), ReservationError>(ReservationError::TileInvalid) && *final(grid)
                    == *old(grid),
                Some(t) => {
                    &&& r == Ok::<(), ReservationError>(())
                    &&& final(grid)@ =~~= spec_set_tile(old(grid)@, self.pos, spec_unreserve(t, vehicle_id))
                    &&& final(grid).buildings == old(grid).buildings
                },
            },
            old(grid).wf() ==> final(grid).wf(),
    {
        match grid.get_tile_mut(&self.pos) {
            Some(tile) => {
                tile.unreserve(vehicle_id);
                Ok(())
            },
            None => Err(ReservationError::TileInvalid),
        }
    }

    /// `Ok` when vehicle `vehicle_id` could hold this reservation's tile and span.
    pub fn is_reserved(&self, grid: &mut Grid, vehicle_id: Id) -> (r: Result<(), ReservationError>)
        ensures
            *final(grid) == *old(grid),
            r == (match old(grid).tile_at(self.pos) {
                None => Err(ReservationError::TileInvalid),
                Some(t) => spec_is_reserved(t, vehicle_id, self.start, self.end),
            }),
    {
        grid.is_reserved(&self.pos, vehicle_id, self.start, self.end)
    }
}

impl Grid {
    /// Reserves the tile at `pos` for vehicle `vehicle_id` over `[start, end]`.
    pub fn reserve(
        &mut self,
        pos: &Position,
        vehicle_id: Id,
        current: Tick,
        start: Tick,
        end: Tick,
    ) -> (r: Result<Reservation, ReservationError>)
        ensures
            match old(self).tile_at(*pos) {
                None => r == Err::<Reservation, ReservationError>(ReservationError::TileInvalid)
                    && *final(self) == *old(self),
                Some(t) => {
                    let (res, nt) = spec_reserve(t, vehicle_id, *pos, current, start, end);
                    &&& r == res
                    &&& final(self)@ =~~= spec_set_tile(old(self)@, *pos, nt)
                    &&& final(self).buildings == old(self).buildings
                },
            },
            old(self).wf() ==> final(self).wf(),
    {
        match self.get_tile_mut(pos) {
            Some(tile) => tile.reserve(vehicle_id, *pos, current, start, end),
            None => Err(ReservationError::TileInvalid),
        }
    }

    /// `Ok` when vehicle `vehicle_id` could hold the tile at `pos` over `[start, end]`.
    pub fn is_reserved(&self, pos: &Position, vehicle_id: Id, start: Tick, end: Tick) -> (r: Result<
        (),
        ReservationError,
    >)
        ensures
            r == (match self.tile_at(*pos) {
                None => Err(ReservationError::TileInvalid),
                Some(t) => spec_is_reserved(t, vehicle_id, start, end),
            }),
    {
        match self.get_tile(pos) {
            Some(tile) => tile.is_reserved(vehicle_id, start, end),
            None => Err(ReservationError::TileInvalid),
        }
    }

    /// The route for a vehicle leaving `start.0` towards `start.1` to building `end`.
    pub fn find_path(&self, start: (Position, Direction), end: &Id) -> (r: Path)
        requires
            path_request_fits(*self, start, *end),
        ensures
            path_view(r) == spec_find_path(*self, start, *end),
            path_facts(self@, self.buildings@, start, *end, path_view(r)),
            r matches Some((_, c)) ==> c <= 3 * 0x200_0000 + 1,
    {
        let path_start = start.0 + start.1;
        match self.get_tile(&path_start) {
            Some(tile) => {
                if !tile.is_road() {
                    return None;
                }
            },
            None => {
                return None;
            },
        }
        let end_building = match self.buildings.hash_map.get(end) {
            Some(b) => *b,
            None => {
                return None;
            },
        };
        if end_building.building_type == BuildingType::House {
            let (stop, dir) = match end_building.destination_pos(self) {
                Some(sd) => sd,
                None => {
                    return None;
                },
            };
            let end_pos = stop + dir;
            let route = self.find_road_path(&path_start, &end_pos);
            proof {
                let ghost found = path_view(route);
                if let Some(rc) = found {
                    self.lemma_route_bounds(path_start, PathGoal::Tile(end_pos), rc.0, rc.1);
                }
            }
            let r = extend_route(route, stop);
            proof {
                if let Some((p0, c0)) = path_view(route) {
                    let (p1, c1) = path_view(r)->0;
                    assert(p1.drop_last() =~= p0);
                }
            }
            r
        } else {
            let route = self.find_path_to_building(&path_start, end, &end_building.pos);
            proof {
                let ghost found = path_view(route);
                if let Some(rc) = found {
                    self.lemma_route_bounds(path_start, PathGoal::Building(*end, end_building.pos), rc.0, rc.1);
                }
            }
            route
        }
    }

    /// The route along the roads from `start` to the tile `end`.
    pub fn find_road_path(&self, start: &Position, end: &Position) -> (r: Path)
        requires
            self.within_route_bounds(),
        ensures
            path_view(r) == searched_route(self@, *start, PathGoal::Tile(*end)),
            r matches Some((p, c)) ==> is_route(self@, *start, PathGoal::Tile(*end), p@, c),
            search_facts(self@, *start, PathGoal::Tile(*end), path_view(r)),
    {
        self.search_route(start, &PathGoal::Tile(*end))
    }

    /// The route along the roads from `start` to any tile of building `end`,
    /// searched towards `end_approx`.
    pub fn find_path_to_building(&self, start: &Position, end: &Id, end_approx: &Position) -> (r:
        Path)
        requires
            self.within_route_bounds(),
        ensures
            path_view(r) == searched_route(self@, *start, PathGoal::Building(*end, *end_approx)),
            r matches Some((p, c)) ==> is_route(
                self@,
                *start,
                PathGoal::Building(*end, *end_approx),
                p@,
                c,
            ),
            search_facts(self@, *start, PathGoal::Building(*end, *end_approx), path_view(r)),
    {
        self.search_route(start, &PathGoal::Building(*end, *end_approx))
    }

    /// Where a vehicle on the road at `pos` can drive next, and what entering
    /// each tile costs.
    pub fn road_successors(&self, pos: &Position) -> (r: Vec<(Position, u32)>)
        ensures
            r@ == spec_road_successors(self@, *pos),
    {
        match self.get_tile(pos) {
            Some(Tile::Road(road)) => {
                assert(0 <= pos.x && 0 <= pos.y);
                assert(spec_default_connections(*pos).len() > 0);
                let dirs = road.iter_connections(pos);
                let mut out: Vec<(Position, u32)> = Vec::new();
                let mut i: usize = 0;
                while i < dirs.len()
                    invariant
                        0 <= i <= dirs.len(),
                        out@ == steps_along(self@, *pos, dirs@.take(i as int)),
                    decreases dirs.len() - i,
                {
                    let d = dirs[i];
                    assert(dirs@.take(i + 1).drop_last() =~= dirs@.take(i as int));
                    match pos.checked_plus(d) {
                        Some(np) => match self.get_tile(&np) {
                            Some(t) => {
                                let c = t.cost();
                                out.push((np, c));
                            },
                            None => {},
                        },
                        None => {},
                    }
                    i = i + 1;
                }
                assert(dirs@.take(dirs@.len() as int) =~= dirs@);
                out
            },
            _ => Vec::new(),
        }
    }

    /// Whether the search for `goal` ends at `p`.
    pub fn goal_reached(&self, goal: &PathGoal, p: &Position) -> (r: bool)
        ensures
            r == goal_reached(self@, *goal, *p),
    {
        match goal {
            PathGoal::Tile(end) => *p == *end,
            PathGoal::Building(id, _) => match self.get_tile(p) {
                Some(tile) => match tile.get_building_id() {
                    Some(b) => b == *id,
                    None => false,
                },
                None => false,
            },
        }
    }

    /// The tiles next to `pos` that a vehicle on it can drive to.
    pub fn road_neighbours(&self, pos: &Position) -> (r: Vec<Position>)
        ensures
            r@ == road_neighbours(self@, *pos),
    {
        let steps = self.road_successors(pos);
        let mut out: Vec<Position> = Vec::new();
        let mut i: usize = 0;
        while i < steps.len()
            invariant
                0 <= i <= steps.len(),
                out@ == steps@.take(i as int).map_values(|s: (Position, u32)| s.0),
            decreases steps.len() - i,
        {
            out.push(steps[i].0);
            i = i + 1;
            assert(out@ =~= steps@.take(i as int).map_values(|s: (Position, u32)| s.0));
        }
        assert(steps@.take(steps@.len() as int) =~= steps@);
        out
    }

    /// Every tile that vehicles can reach from `pos` along the roads, `pos`
    /// first, in the order a breadth-first walk meets them.
    pub fn iter_reachable(&self, pos: Position) -> (r: Vec<Position>)
        ensures
            r@ == walked_tiles(self@, pos),
            is_reach(self@, pos, r@),
    {
        self.walk_roads(pos)
    }

    /// Runs the breadth-first walk of the `pathfinding` crate over the roads of this grid.
    #[verifier::external_body]
    fn walk_roads(&self, start: Position) -> (r: Vec<Position>)
        ensures
            r@ == walked_tiles(self@, start),
            is_reach(self@, start, r@),
    {
        bfs_reach(start, |p| self.road_neighbours(p)).collect()
    }

    /// Runs the A* search of the `pathfinding` crate over the roads of this
    /// grid. Its documentation promises the route it finds (start and end
    /// included, no tile twice), the shortest when the estimate is never
    /// greater than the real cost, and `None` when no route can be found; the
    /// search keeps going while any reachable tile is left, and the route
    /// bounds keep every cost inside `u32`.
    #[verifier::external_body]
    fn search_route(&self, start: &Position, goal: &PathGoal) -> (r: Path)
        requires
            self.within_route_bounds(),
        ensures
            r is Some <==> searched_route(self@, *start, *goal) is Some,
            r matches Some((path, cost)) ==> searched_route(self@, *start, *goal) == Some(
                (path@, cost),
            ),
            r matches Some((path, cost)) ==> is_route(self@, *start, *goal, path@, cost),
            search_facts(self@, *start, *goal, path_view(r)),
    {
        astar(
            start,
            |p| self.road_successors(p),
            |p| goal.estimate(p),
            |p| self.goal_reached(goal, p),
        )
    }
}

} // verus!
