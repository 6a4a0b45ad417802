use vstd::prelude::*;

pub mod direction;
pub use direction::Direction;
pub mod build;
pub mod building;
pub mod city;
pub mod grid;
pub mod levels;
pub mod path;
pub mod position;
pub mod road_look;
pub use position::Position;
pub mod tile;
pub mod vehicle;

use crate::consts::SpawnerColors;
use crate::hash_map_id::{HashMapId, Id};
use crate::rng::seed_random;
use building::{lemma_placed_sides_fit, placed, spec_spawn_pos, spec_building_update, spec_update_arrived, Building};
use build::BuildActionBuilding;
use city::{grow_site, lemma_grow_site_on_grid, ticked, update_result, City, GROW_REACH};
use crate::text::words;
use grid::{
    no_row_shorter, rows_within, lemma_tile_in_box, parsed_from, spec_grid_from_words, spec_scan, spec_spawner_dir,
    spec_tile_at, station_at, within_route_bounds, Grid,
};
use tile::road::swap_removed;
use tile::Tick;
use tile::{spec_reserve, TileView};
use vehicle::{fresh_vehicle, spec_find_route, ticks_fit, Status, Vehicle, VehicleView, TICK_LIMIT};

verus! {

/// The city that the buildings of a map string belong to.
pub const DEFAULT_CITY_ID: Id = 1;

/// Which build tools a level offers.
#[derive(Clone, Copy, PartialEq, Eq, Structural, Debug)]
pub enum Unlocked {
    Roads,
    Bridges,
    OneWayRoads,
    All,
}

/// What kind of game a map is for, and how far it has come.
#[derive(Clone, PartialEq, Eq, Debug)]
pub struct MapMetadata {
    pub is_level: bool,
    pub grow_cities: bool,
    pub level_complete: bool,
    pub level_number: usize,
    pub unlocks: Unlocked,
    pub level_hint: Option<String>,
}

impl MapMetadata {
    /// A free game: cities grow, every tool is there, no level.
    #[verifier::allow_in_spec]
    pub fn new() -> Self
        returns
            (MapMetadata {
                is_level: false,
                grow_cities: true,
                level_complete: false,
                level_number: 0,
                unlocks: Unlocked::All,
                level_hint: None,
            }),
    {
        MapMetadata {
            is_level: false,
            grow_cities: true,
            level_complete: false,
            level_number: 0,
            unlocks: Unlocked::All,
            level_hint: None,
        }
    }
}

/// `s` without the first occurrence of `x`, the last element moved into its place.
pub open spec fn without_first<T>(s: Seq<T>, x: T) -> Seq<T> {
    match s.index_of_first(x) {
        Some(i) => swap_removed(s, i),
        None => s,
    }
}

/// The buildings a map string yields are placed and belong to the default city.
pub proof fn lemma_parsed_buildings(ws: Seq<Seq<char>>, g: Grid)
    requires
        ws.len() > 0,
        ws.len() <= 0x1000,
        ws[0].len() <= 0x1000,
        no_row_shorter(ws),
        rows_within(ws, 0x1000),
        parsed_from(ws, g),
    ensures
        g.within_route_bounds(),
        g.buildings_placed(),
        forall|k: Id| #[trigger] g.buildings@.contains_key(k) ==> g.buildings@[k].city_id == DEFAULT_CITY_ID,
{
    let orig = spec_grid_from_words(ws);
    assert forall|y: int| 0 <= y < g@.len() implies #[trigger] g@[y].len() <= 0x1000 by {
        assert(g@[y].len() == orig[y].len());
        assert(ws[y].len() <= 0x1000);
    }
    assert(within_route_bounds(orig)) by {
        assert forall|y: int| 0 <= y < orig.len() implies #[trigger] orig[y].len() <= 0x1000 by {
            assert(ws[y].len() <= 0x1000);
        }
    }
    assert forall|k: Id| #[trigger] g.buildings@.contains_key(k) implies placed(g.buildings@[k])
        && g.buildings@[k].city_id == DEFAULT_CITY_ID by {
        let b = g.buildings@[k];
        let size = (ws[0].len() as i16, ws.len() as i16);
        let scan = spec_scan(size);
        if building::is_new_house(b, b.pos, DEFAULT_CITY_ID) && spec_tile_at(g@, b.pos) == Some(
            TileView::Building(k),
        ) {
            lemma_tile_in_box(g@, b.pos);
        } else {
            let j = choose|j: int|
                0 <= j < scan.len() && station_at(orig, #[trigger] scan[j]) == Some(k)
                    && building::is_new_spawner(
                    b,
                    scan[j],
                    spec_spawner_dir(scan[j], size),
                    crate::consts::spec_color_of_station(k),
                    DEFAULT_CITY_ID,
                );
            lemma_tile_in_box(orig, scan[j]);
        }
    }
}

/// The buildings after the trips in `list` ended: each vehicle that was on
/// the map counts at its destination, if that still stands, as arrived when
/// it reached it and as failed otherwise.
pub open spec fn arrivals(buildings: Map<Id, Building>, vehicles: Map<Id, Vehicle>, list: Seq<(Id, Status)>) -> Map<
    Id,
    Building,
>
    decreases list.len(),
{
    if list.len() == 0 {
        buildings
    } else {
        let prev = arrivals(buildings, vehicles, list.drop_last());
        let (id, status) = list.last();
        if vehicles.contains_key(id) && prev.contains_key(vehicles[id].destination) {
            let dest = vehicles[id].destination;
            prev.insert(dest, spec_update_arrived(prev[dest], status == Status::ReachedDestination))
        } else {
            prev
        }
    }
}

/// `m1` is `m0` after `add_vehicle(start, end, color)` answered `r`: without
/// a start, or when the start tile is missing or cannot be held, nothing
/// changes; otherwise the start tile holds the new vehicle, which gets the
/// next vehicle id and has looked for its route.
pub open spec fn vehicle_added(
    m0: GameMap,
    m1: GameMap,
    start: Option<(Position, Direction)>,
    end: Id,
    color: SpawnerColors,
    r: Option<Id>,
) -> bool {
    match start {
        None => r is None && m1.grid@ == m0.grid@ && m1.vehicles == m0.vehicles,
        Some(s) => match spec_tile_at(m0.grid@, s.0) {
            None => r is None && m1.grid@ == m0.grid@ && m1.vehicles == m0.vehicles,
            Some(t) => match spec_reserve(t, m0.vehicles.id, s.0, m0.tick, m0.tick, Tick::MAX) {
                (Err(_), _) => r is None && m1.grid@ == m0.grid@ && m1.vehicles == m0.vehicles,
                (Ok(res), nt) => {
                    &&& r == Some(m0.vehicles.id)
                    &&& m1.grid@ == grid::spec_set_tile(m0.grid@, s.0, nt)
                    &&& m1.vehicles.id == m0.vehicles.id + 1
                    &&& m1.vehicles@.dom() == m0.vehicles@.dom().insert(m0.vehicles.id)
                    &&& forall|k: Id| #[trigger] m0.vehicles@.contains_key(k) ==> m1.vehicles@[k]
                        == m0.vehicles@[k]
                    &&& m1.vehicles@[m0.vehicles.id]@ == (VehicleView {
                        color,
                        ..spec_find_route(fresh_vehicle(m0.vehicles.id, s, end, res), m1.grid@, m0.grid.buildings@)
                    })
                },
            },
        },
    }
}

/// Where the four houses a generated city starts with stand (their top-left
/// tiles), around the city's position `c`.
pub open spec fn house_sites(c: Position) -> Seq<Position> {
    seq![
        Position { x: (c.x + 2) as i16, y: (c.y + 2) as i16, z: c.z },
        Position { x: (c.x + 2) as i16, y: (c.y - 2) as i16, z: c.z },
        Position { x: (c.x - 2) as i16, y: (c.y + 2) as i16, z: c.z },
        Position { x: (c.x - 2) as i16, y: (c.y - 2) as i16, z: c.z },
    ]
}

/// `q` is a tile of the 2x2 block whose top-left tile is `p`.
pub open spec fn in_block(p: Position, q: Position) -> bool {
    q.z == p.z && p.x <= q.x <= p.x + 1 && p.y <= q.y <= p.y + 1
}

/// The tile at `q` after the first `k` houses around `c` were put up with
/// ids from `first_id` on: the house's tile, or `before` elsewhere.
pub open spec fn generated_tile(c: Position, q: Position, k: int, first_id: Id, before: Option<TileView>) -> Option<
    TileView,
> {
    if k > 0 && in_block(house_sites(c)[0], q) {
        Some(TileView::Building(first_id))
    } else if k > 1 && in_block(house_sites(c)[1], q) {
        Some(TileView::Building((first_id + 1) as Id))
    } else if k > 2 && in_block(house_sites(c)[2], q) {
        Some(TileView::Building((first_id + 2) as Id))
    } else if k > 3 && in_block(house_sites(c)[3], q) {
        Some(TileView::Building((first_id + 3) as Id))
    } else {
        before
    }
}

/// Room for a generated city at `c` on grid `g`: the four house blocks lie
/// on empty ground and stay inside the building bounds.
pub open spec fn city_site_free(g: Seq<Seq<(TileView, TileView)>>, c: Position) -> bool {
    &&& 2 <= c.x <= 0x1000 - 2
    &&& 2 <= c.y <= 0x1000 - 2
    &&& c.z == 0
    &&& forall|k: int, q: Position|
        0 <= k < 4 && #[trigger] in_block(house_sites(c)[k], q) ==> #[trigger] spec_tile_at(g, q) == Some(
            TileView::Empty,
        )
}

/// The whole game world: the grid with its buildings, the vehicles, the
/// cities, and the current tick.
pub struct GameMap {
    pub metadata: MapMetadata,
    pub grid: Grid,
    pub vehicles: HashMapId<Vehicle>,
    pub cities: HashMapId<City>,
    pub tick: Tick,
}

/// Building `from` sending a vehicle to building `to` turns map `m0` into
/// `m1` with answer `r` (see `GameMap::spawn_vehicle`).
pub open spec fn spawned(m0: GameMap, m1: GameMap, from: Id, to: Id, r: Option<Id>) -> bool {
    &&& m1.cities == m0.cities
    &&& m1.metadata == m0.metadata
    &&& m1.tick == m0.tick
    &&& m1.grid.buildings.id == m0.grid.buildings.id
    &&& if from == to || !m0.grid.buildings@.contains_key(from) || !m0.grid.buildings@.contains_key(to) {
        r is None && m1 == m0
    } else {
        let b_to = m0.grid.buildings@[to];
        &&& vehicle_added(m0, m1, spec_spawn_pos(m0.grid.buildings@[from], m0.grid@), to, b_to.color, r)
        &&& m1.grid.buildings@ == (if r is Some {
            m0.grid.buildings@
        } else {
            m0.grid.buildings@.insert(to, spec_update_arrived(b_to, false))
        })
    }
}

/// The `k`-th send of a building tick: the `k`-th due building, when it and
/// its city are on the map, sends a vehicle to `to`, a house of its city;
/// otherwise nothing happens.
pub open spec fn send_step(m0: GameMap, m1: GameMap, from: Id, to: Id, r: Option<Id>) -> bool {
    if m0.grid.buildings@.contains_key(from) && m0.cities@.contains_key(m0.grid.buildings@[from].city_id) {
        &&& m0.cities@[m0.grid.buildings@[from].city_id].houses@.contains(to)
        &&& spawned(m0, m1, from, to, r)
    } else {
        m1 == m0
    }
}

/// A building tick turns `m0` into `mf`: every building counts the tick
/// (`mp`, see `spec_building_update`), and the buildings `due` to send a
/// vehicle (each once, in the order the map walks them) do so in turn, the
/// `k`-th to `tos[k]` with answer `rs[k]`, through the maps `ms`.
pub open spec fn buildings_run(
    m0: GameMap,
    mf: GameMap,
    mp: GameMap,
    due: Seq<Id>,
    tos: Seq<Id>,
    rs: Seq<Option<Id>>,
    ms: Seq<GameMap>,
) -> bool {
    &&& mp.grid.buildings@.dom() == m0.grid.buildings@.dom()
    &&& forall|k: Id| #[trigger]
        m0.grid.buildings@.contains_key(k) ==> mp.grid.buildings@[k] == spec_building_update(m0.grid.buildings@[k]).1
    &&& mp.grid@ == m0.grid@
    &&& mp.grid.buildings.id == m0.grid.buildings.id
    &&& mp.vehicles == m0.vehicles
    &&& mp.cities == m0.cities
    &&& mp.metadata == m0.metadata
    &&& mp.tick == m0.tick
    &&& due.no_duplicates()
    &&& forall|k: Id| #[trigger]
        due.contains(k) <==> m0.grid.buildings@.contains_key(k) && spec_building_update(m0.grid.buildings@[k]).0
    &&& tos.len() == due.len()
    &&& rs.len() == due.len()
    &&& ms.len() == due.len() + 1
    &&& ms[0] == mp
    &&& ms.last() == mf
    &&& forall|k: int| 0 <= k < due.len() ==> #[trigger] send_step(ms[k], ms[k + 1], due[k], tos[k], rs[k])
}

/// The ids of the vehicles whose trips ended.
pub open spec fn ended_ids(fin: Seq<(Id, Status)>) -> Set<Id> {
    fin.map_values(|e: (Id, Status)| e.0).to_set()
}

/// One tick of map `m0` gives map `mf` and answer `r`, in phases: the
/// vehicles move (`m1`, see `vehicles_ticked`, the trips that ended being
/// `fin`); the ended trips count at their destinations (see `arrivals`) and
/// their vehicles leave (`m2`); the buildings produce and send vehicles
/// (`m3`, see `buildings_run`), `goals_met` being whether every building had
/// reached its arrival goal; the cities count the tick (`m4`, see `cities_ticked`, the houses
/// they grow being `grown`); when cities grow, the grown houses are built
/// (`m5`, see `houses_built`). Then the tick is counted, and the answer is
/// `goals_met` while the level was not complete yet.
pub open spec fn tick_result<F: Fn(&Vehicle) -> bool>(
    m0: GameMap,
    mf: GameMap,
    r: bool,
    is_late: F,
    m1: GameMap,
    m2: GameMap,
    m3: GameMap,
    m4: GameMap,
    m5: GameMap,
    order: Seq<Id>,
    lates: Seq<bool>,
    probes: Seq<Vehicle>,
    fin: Seq<(Id, Status)>,
    c_order: Seq<Id>,
    outs: Seq<Option<Building>>,
    grown: Seq<Building>,
    goals_met: bool,
    mp: GameMap,
    due: Seq<Id>,
    tos: Seq<Id>,
    rs: Seq<Option<Id>>,
    ms: Seq<GameMap>,
) -> bool {
    &&& vehicles_ticked(m0, m1, m0.tick, is_late, order, lates, probes, fin)
    &&& m1.grid.buildings == m0.grid.buildings
    &&& m1.cities == m0.cities
    &&& m1.metadata == m0.metadata
    &&& m1.vehicles.id == m0.vehicles.id
    &&& m2.grid.buildings@ == arrivals(m1.grid.buildings@, m1.vehicles@, fin)
    &&& m2.vehicles@ == m1.vehicles@.remove_keys(ended_ids(fin))
    &&& m2.grid@ == m1.grid@
    &&& m2.cities == m1.cities
    &&& m2.metadata == m1.metadata
    &&& goals_met == (forall|k: Id| #[trigger]
        m2.grid.buildings@.contains_key(k) ==> m2.grid.buildings@[k].arrived_count >= building::ARRIVED_GOAL)
    &&& buildings_run(m2, m3, mp, due, tos, rs, ms)
    &&& m3.grid.buildings@.dom() == m2.grid.buildings@.dom()
    &&& m3.cities == m2.cities
    &&& m3.metadata == m2.metadata
    &&& cities_ticked(m3, c_order, outs, grown)
    &&& m4.cities@.dom() == m3.cities@.dom()
    &&& forall|c: Id| #[trigger] m3.cities@.contains_key(c) ==> m4.cities@[c] == ticked(m3.cities@[c])
    &&& m4.grid == m3.grid
    &&& m4.vehicles == m3.vehicles
    &&& m4.metadata == m3.metadata
    &&& if m0.metadata.grow_cities {
        &&& (m5.grid@, m5.grid.buildings@, m5.grid.buildings.id, city_houses(m5.cities@)) == houses_built(
            m4.grid@,
            m4.grid.buildings@,
            m4.grid.buildings.id,
            city_houses(m4.cities@),
            grown,
            grown.len() as nat,
        )
        &&& m5.cities@.dom() == m4.cities@.dom()
        &&& forall|c: Id| #[trigger]
            m4.cities@.contains_key(c) ==> m5.cities@[c] == (City { houses: m5.cities@[c].houses, ..m4.cities@[c] })
        &&& m5.vehicles == m4.vehicles
        &&& m5.metadata == m4.metadata
    } else {
        m5 == m4
    }
    &&& mf == (GameMap { tick: mf.tick, ..m5 })
    &&& mf.tick == m0.tick + 1
    &&& r == (goals_met && !m0.metadata.level_complete)
}

/// The vehicles of a map as plain values.
pub open spec fn vehicle_views(vs: Map<Id, Vehicle>) -> Map<Id, VehicleView> {
    vs.map_values(|v: Vehicle| v@)
}

/// The vehicles (as plain values) and the grid after the first `n` vehicles of
/// `order` take a tick at `tick` in turn (see `Vehicle::update`), `lates[k]`
/// being whether the `k`-th was hopelessly late; with the trips that ended,
/// and how, in that order.
pub open spec fn vehicles_run(
    vs: Map<Id, VehicleView>,
    g: Seq<Seq<(TileView, TileView)>>,
    buildings: Map<Id, Building>,
    tick: Tick,
    order: Seq<Id>,
    lates: Seq<bool>,
    n: nat,
) -> (Map<Id, VehicleView>, Seq<Seq<(TileView, TileView)>>, Seq<(Id, Status)>)
    decreases n,
{
    if n == 0 {
        (vs, g, seq![])
    } else {
        let (vs1, g1, out) = vehicles_run(vs, g, buildings, tick, order, lates, (n - 1) as nat);
        let id = order[n - 1];
        let (st, v, g2) = vehicle::spec_update(vs1[id], g1, buildings, tick, lates[n - 1]);
        (vs1.insert(id, v), g2, if st != Status::EnRoute {
            out.push((id, st))
        } else {
            out
        })
    }
}

/// The `k`-th vehicle of `order` as the lateness test sees it: as it was
/// before its turn, with the tick counted.
pub open spec fn late_probe(
    vs: Map<Id, VehicleView>,
    g: Seq<Seq<(TileView, TileView)>>,
    buildings: Map<Id, Building>,
    tick: Tick,
    order: Seq<Id>,
    lates: Seq<bool>,
    k: nat,
) -> VehicleView {
    let v = vehicles_run(vs, g, buildings, tick, order, lates, k).0[order[k as int]];
    VehicleView { elapsed_ticks: (v.elapsed_ticks + 1) as u32, ..v }
}

/// A tick of every vehicle of `m0`, walked once each in `order`, gives the
/// vehicles and grid of `m1` and the ended trips `out`; `lates[k]` is what the
/// lateness test `is_late` answered for `probes[k]`, the `k`-th vehicle at its turn.
pub open spec fn vehicles_ticked<F: Fn(&Vehicle) -> bool>(
    m0: GameMap,
    m1: GameMap,
    tick: Tick,
    is_late: F,
    order: Seq<Id>,
    lates: Seq<bool>,
    probes: Seq<Vehicle>,
    out: Seq<(Id, Status)>,
) -> bool {
    let vs0 = vehicle_views(m0.vehicles@);
    &&& order.to_set() == m0.vehicles@.dom()
    &&& order.no_duplicates()
    &&& lates.len() == order.len()
    &&& probes.len() == order.len()
    &&& (vehicle_views(m1.vehicles@), m1.grid@, out) == vehicles_run(
        vs0,
        m0.grid@,
        m0.grid.buildings@,
        tick,
        order,
        lates,
        order.len(),
    )
    &&& forall|k: int|
        0 <= k < order.len() ==> (#[trigger] probes[k])@ == late_probe(
            vs0,
            m0.grid@,
            m0.grid.buildings@,
            tick,
            order,
            lates,
            k as nat,
        ) && is_late.ensures((&probes[k],), lates[k])
}

/// One more vehicle tick extends a run: the answer for the new turn adds
/// one step and changes neither the earlier steps nor what the lateness test
/// saw at them.
proof fn lemma_run_step(
    vs: Map<Id, VehicleView>,
    g: Seq<Seq<(TileView, TileView)>>,
    buildings: Map<Id, Building>,
    tick: Tick,
    order: Seq<Id>,
    lates: Seq<bool>,
    late: bool,
    n: nat,
)
    requires
        lates.len() == n,
    ensures
        ({
            let (vs1, g1, out) = vehicles_run(vs, g, buildings, tick, order, lates, n);
            let id = order[n as int];
            let (st, v, g2) = vehicle::spec_update(vs1[id], g1, buildings, tick, late);
            vehicles_run(vs, g, buildings, tick, order, lates.push(late), n + 1) == (
                vs1.insert(id, v),
                g2,
                if st != Status::EnRoute {
                    out.push((id, st))
                } else {
                    out
                },
            )
        }),
        late_probe(vs, g, buildings, tick, order, lates.push(late), n) == ({
            let v = vehicles_run(vs, g, buildings, tick, order, lates, n).0[order[n as int]];
            VehicleView { elapsed_ticks: (v.elapsed_ticks + 1) as u32, ..v }
        }),
        forall|k: nat|
            k < n ==> #[trigger] late_probe(vs, g, buildings, tick, order, lates.push(late), k) == late_probe(
                vs,
                g,
                buildings,
                tick,
                order,
                lates,
                k,
            ),
{
    let l2 = lates.push(late);
    lemma_run_prefix(vs, g, buildings, tick, order, lates, l2, n);
    assert forall|k: nat| k < n implies #[trigger] late_probe(vs, g, buildings, tick, order, l2, k) == late_probe(
        vs,
        g,
        buildings,
        tick,
        order,
        lates,
        k,
    ) by {
        lemma_run_prefix(vs, g, buildings, tick, order, lates, l2, k);
    }
}

/// A run of `n` vehicle ticks depends only on the first `n` lateness answers.
proof fn lemma_run_prefix(
    vs: Map<Id, VehicleView>,
    g: Seq<Seq<(TileView, TileView)>>,
    buildings: Map<Id, Building>,
    tick: Tick,
    order: Seq<Id>,
    l1: Seq<bool>,
    l2: Seq<bool>,
    n: nat,
)
    requires
        forall|j: int| 0 <= j < n && j < l1.len() ==> l1[j] == l2[j],
        n <= l1.len(),
        n <= l2.len(),
    ensures
        vehicles_run(vs, g, buildings, tick, order, l1, n) == vehicles_run(vs, g, buildings, tick, order, l2, n),
    decreases n,
{
    if n > 0 {
        lemma_run_prefix(vs, g, buildings, tick, order, l1, l2, (n - 1) as nat);
    }
}

/// The houses of each city, as plain values.
pub open spec fn city_houses(cities: Map<Id, City>) -> Map<Id, Seq<Id>> {
    cities.map_values(|c: City| c.houses@)
}

/// The grid, the buildings, the next building id and the houses of each city
/// after the first `n` of `houses` are built in turn (see
/// `BuildActionBuilding::execute`): while ids last, each is added under the
/// next id, joins its city, and marks its block.
pub open spec fn houses_built(
    g: Seq<Seq<(TileView, TileView)>>,
    b: Map<Id, Building>,
    id: Id,
    hs: Map<Id, Seq<Id>>,
    houses: Seq<Building>,
    n: nat,
) -> (Seq<Seq<(TileView, TileView)>>, Map<Id, Building>, Id, Map<Id, Seq<Id>>)
    decreases n,
{
    if n == 0 {
        (g, b, id, hs)
    } else {
        let (g1, b1, id1, hs1) = houses_built(g, b, id, hs, houses, (n - 1) as nat);
        let h = houses[n - 1];
        if id1 < Id::MAX {
            (
                build::mark_block(g1, h.pos, id1, 0).1,
                b1.insert(id1, h),
                (id1 + 1) as Id,
                if hs1.contains_key(h.city_id) {
                    hs1.insert(h.city_id, hs1[h.city_id].push(id1))
                } else {
                    hs1
                },
            )
        } else {
            (g1, b1, id1, hs1)
        }
    }
}

/// The houses among `outs`, in order.
pub open spec fn somes(outs: Seq<Option<Building>>) -> Seq<Building>
    decreases outs.len(),
{
    if outs.len() == 0 {
        seq![]
    } else {
        let rest = somes(outs.drop_last());
        match outs.last() {
            Some(b) => rest.push(b),
            None => rest,
        }
    }
}

/// A tick of every city of `m0`, walked once each in `order`: `outs[k]` is
/// what the `k`-th city gave (see `City::update`), and `grown` the houses
/// among them, in that order.
pub open spec fn cities_ticked(m0: GameMap, order: Seq<Id>, outs: Seq<Option<Building>>, grown: Seq<Building>) -> bool {
    &&& order.to_set() == m0.cities@.dom()
    &&& order.no_duplicates()
    &&& outs.len() == order.len()
    &&& forall|k: int| 0 <= k < order.len() ==> update_result(m0.cities@[order[k]], m0.grid, #[trigger] outs[k])
    &&& grown == somes(outs)
}

impl GameMap {
    /// The grid is small enough for route searches, its roads are well formed
    /// and its buildings placed; each building's city exists and lists it;
    /// every vehicle is well formed.
    pub open spec fn wf(&self) -> bool {
        &&& self.grid.wf()
        &&& self.grid.within_route_bounds()
        &&& self.grid.buildings_placed()
        &&& forall|id: Id| #[trigger]
            self.grid.buildings@.contains_key(id) ==> self.cities@.contains_key(
                self.grid.buildings@[id].city_id,
            ) && self.cities@[self.grid.buildings@[id].city_id].houses@.contains(id)
        &&& forall|id: Id| #[trigger] self.vehicles@.contains_key(id) ==> self.vehicles@[id].wf()
        &&& self.cities.fresh()
        &&& self.vehicles.fresh()
        &&& forall|c: Id| #[trigger] self.cities@.contains_key(c) ==> self.cities@[c].id == c
    }

    /// An empty map of `size.0` by `size.1` tiles without cities or vehicles
    /// (the random generator is reseeded so that games start alike).
    pub fn new_blank(size: (i16, i16)) -> (r: Self)
        requires
            0 <= size.0 <= 0x1000,
            0 <= size.1 <= 0x1000,
        ensures
            r.wf(),
            r.grid@.len() == size.1,
            forall|y: int, x: int|
                0 <= y < size.1 && 0 <= x < size.0 ==> r.grid@[y].len() == size.0 && #[trigger] r.grid@[y][x]
                    == (tile::TileView::Empty, tile::TileView::Empty),
            r.grid.buildings@ == Map::<Id, Building>::empty(),
            r.grid.buildings.id == 1,
            r.vehicles@ == Map::<Id, Vehicle>::empty(),
            r.vehicles.id == 1,
            r.cities@ == Map::<Id, City>::empty(),
            r.cities.id == 1,
            r.metadata == MapMetadata::new(),
            r.tick == 0,
    {
        seed_random(1234);
        let grid = Grid::new(size);
        assert(grid.within_route_bounds());
        GameMap {
            metadata: MapMetadata::new(),
            grid,
            vehicles: HashMapId::new(),
            cities: HashMapId::new(),
            tick: 0,
        }
    }

    /// The map a map string describes (see `Grid::new_from_string`), with one
    /// city in its middle, "default city", that all its buildings belong to.
    pub fn new_from_string(string: &str) -> (r: GameMap)
        requires
            words(string@).len() > 0,
            words(string@).len() <= 0x1000,
            words(string@)[0].len() <= 0x1000,
            no_row_shorter(words(string@)),
            rows_within(words(string@), 0x1000),
        ensures
            r.wf(),
            parsed_from(words(string@), r.grid),
            r.cities@.dom() == set![DEFAULT_CITY_ID],
            r.cities.id == DEFAULT_CITY_ID + 1,
            r.cities@[DEFAULT_CITY_ID].pos == (Position {
                x: (words(string@)[0].len() / 2) as i16,
                y: (words(string@).len() / 2) as i16,
                z: 0,
            }),
            r.cities@[DEFAULT_CITY_ID].name@ == "default city"@,
            r.cities@[DEFAULT_CITY_ID].id == DEFAULT_CITY_ID,
            r.cities@[DEFAULT_CITY_ID].grow_rate == city::CITY_GROW_TICKS,
            r.cities@[DEFAULT_CITY_ID].grow_ticks < city::CITY_GROW_TICKS,
            r.cities@[DEFAULT_CITY_ID].houses@.to_set() == r.grid.buildings@.dom(),
            r.cities@[DEFAULT_CITY_ID].houses@.no_duplicates(),
            r.vehicles@ == Map::<Id, Vehicle>::empty(),
            r.vehicles.id == 1,
            r.metadata == MapMetadata::new(),
            r.tick == 0,
    {
        let grid = Grid::new_from_string(string);
        proof {
            lemma_parsed_buildings(words(string@), grid);
        }
        let mut map = GameMap {
            metadata: MapMetadata::new(),
            grid,
            vehicles: HashMapId::new(),
            cities: HashMapId::new(),
            tick: 0,
        };
        let size = map.grid.size();
        proof {
            let ws = words(string@);
            assert(map.grid@.len() == spec_grid_from_words(ws).len());
            assert(map.grid@[0].len() == spec_grid_from_words(ws)[0].len());
            assert(map.grid@[0].len() == map.grid.tiles@[0]@.len());
            assert(size.0 == ws[0].len());
            assert(size.1 == ws.len());
        }
        let center = Position::new(size.0 / 2, size.1 / 2);
        let city_id = map.new_city(center, "default city".to_string());
        let ids = map.grid.buildings.ids();
        let ghost buildings0 = map.grid.buildings@;
        let mut city = match map.cities.hash_map.remove(&city_id) {
            Some(c) => c,
            None => {
                return map;
            },
        };
        assert(map.cities@ =~= Map::<Id, City>::empty());
        let mut i: usize = 0;
        while i < ids.len()
            invariant
                0 <= i <= ids@.len(),
                ids@.to_set() == buildings0.dom(),
                ids@.no_duplicates(),
                city_id == DEFAULT_CITY_ID,
                map.grid.buildings@ == buildings0,
                forall|k: Id| #[trigger] buildings0.contains_key(k) ==> buildings0[k].city_id == DEFAULT_CITY_ID,
                city.houses@ == ids@.take(i as int),
                map.cities@ =~= Map::<Id, City>::empty(),
                map.cities.id == DEFAULT_CITY_ID + 1,
                map.vehicles@ == Map::<Id, Vehicle>::empty(),
                map.vehicles.id == 1,
                map.vehicles.fresh(),
                map.metadata == MapMetadata::new(),
                map.tick == 0,
                map.grid.wf(),
                map.grid.within_route_bounds(),
                map.grid.buildings_placed(),
                parsed_from(words(string@), map.grid),
                city.id == DEFAULT_CITY_ID,
                city.pos == center,
                city.name@ == "default city"@,
                city.grow_rate == city::CITY_GROW_TICKS,
                city.grow_ticks < city::CITY_GROW_TICKS,
            decreases ids@.len() - i,
        {
            let id = ids[i];
            assert(ids@.to_set().contains(id));
            match map.grid.buildings.hash_map.remove(&id) {
                Some(mut building) => {
                    building.city_id = city_id;
                    map.grid.buildings.hash_map.insert(id, building);
                    assert(map.grid.buildings@ =~= buildings0);
                },
                None => {},
            }
            city.houses.push(id);
            i = i + 1;
            assert(city.houses@ =~= ids@.take(i as int));
        }
        map.cities.hash_map.insert(city_id, city);
        proof {
            assert(ids@.take(ids@.len() as int) =~= ids@);
            assert(map.cities@.dom() =~= set![DEFAULT_CITY_ID]);
            assert forall|k: Id| #[trigger] map.grid.buildings@.contains_key(k) implies map.cities@.contains_key(
                map.grid.buildings@[k].city_id,
            ) && map.cities@[map.grid.buildings@[k].city_id].houses@.contains(k) by {
                assert(ids@.to_set().contains(k));
            }
            assert forall|c: Id| #[trigger] map.cities@.contains_key(c) implies c < map.cities.id by {}
        }
        map
    }

    /// Founds a city at `pos` and returns its id.
    pub fn new_city(&mut self, pos: Position, name: String) -> (r: Id)
        requires
            old(self).cities.id < Id::MAX,
        ensures
            r == old(self).cities.id,
            final(self).cities.id == old(self).cities.id + 1,
            final(self).cities@.dom() == old(self).cities@.dom().insert(r),
            forall|c: Id| c != r && #[trigger] old(self).cities@.contains_key(c) ==> final(self).cities@[c]
                == old(self).cities@[c],
            final(self).cities@[r].pos == pos,
            final(self).cities@[r].name == name,
            final(self).cities@[r].id == r,
            final(self).cities@[r].houses@ == Seq::<Id>::empty(),
            final(self).cities@[r].grow_rate == city::CITY_GROW_TICKS,
            final(self).cities@[r].grow_ticks < city::CITY_GROW_TICKS,
            final(self).grid == old(self).grid,
            final(self).vehicles == old(self).vehicles,
            final(self).metadata == old(self).metadata,
            final(self).tick == old(self).tick,
            old(self).wf() ==> final(self).wf(),
    {
        let id = self.cities.id;
        let r = self.cities.insert(City::new(id, pos, name));
        proof {
            if old(self).wf() {
                assert forall|b: Id| #[trigger] self.grid.buildings@.contains_key(b) implies self.cities@.contains_key(
                    self.grid.buildings@[b].city_id,
                ) && self.cities@[self.grid.buildings@[b].city_id].houses@.contains(b) by {
                    assert(old(self).cities@.contains_key(self.grid.buildings@[b].city_id));
                }
            }
        }
        r
    }

    /// The city with this id.
    pub fn get_city(&mut self, id: Id) -> (r: Option<&City>)
        ensures
            r == (if old(self).cities@.contains_key(id) {
                Some(&old(self).cities@[id])
            } else {
                None
            }),
            *final(self) == *old(self),
    {
        self.cities.hash_map.get(&id)
    }

    /// Gives city `id` the name `name`; `false` when there is no such city.
    pub fn rename_city(&mut self, id: Id, name: String) -> (r: bool)
        ensures
            r == old(self).cities@.contains_key(id),
            final(self).cities@ == (if r {
                old(self).cities@.insert(id, City { name, ..old(self).cities@[id] })
            } else {
                old(self).cities@
            }),
            final(self).cities.id == old(self).cities.id,
            final(self).grid == old(self).grid,
            final(self).vehicles == old(self).vehicles,
            final(self).metadata == old(self).metadata,
            final(self).tick == old(self).tick,
            old(self).wf() ==> final(self).wf(),
    {
        match self.cities.hash_map.remove(&id) {
            Some(mut city) => {
                city.name = name;
                self.cities.hash_map.insert(id, city);
                proof {
                    assert(self.cities@ =~= old(self).cities@.insert(id, City { name, ..old(self).cities@[id] }));
                    if old(self).wf() {
                        assert forall|c: Id| #[trigger] self.cities@.contains_key(c) implies c < self.cities.id by {
                            assert(old(self).cities@.contains_key(c));
                        }
                        assert forall|b: Id| #[trigger] self.grid.buildings@.contains_key(b) implies self.cities@.contains_key(
                            self.grid.buildings@[b].city_id,
                        ) && self.cities@[self.grid.buildings@[b].city_id].houses@.contains(b) by {
                            assert(old(self).cities@.contains_key(self.grid.buildings@[b].city_id));
                        }
                    }
                }
                true
            },
            None => {
                assert(self.cities@ =~= old(self).cities@);
                false
            },
        }
    }

    /// Hands out an id for a building that is yet to be inserted.
    pub fn reserve_building_id(&mut self) -> (r: Id)
        requires
            old(self).grid.buildings.id < Id::MAX,
        ensures
            r == old(self).grid.buildings.id,
            final(self).grid.buildings.id == old(self).grid.buildings.id + 1,
            final(self).grid.buildings@ == old(self).grid.buildings@,
            final(self).grid@ == old(self).grid@,
            final(self).grid.tiles == old(self).grid.tiles,
            final(self).cities == old(self).cities,
            final(self).vehicles == old(self).vehicles,
            final(self).metadata == old(self).metadata,
            final(self).tick == old(self).tick,
            old(self).wf() ==> final(self).wf(),
    {
        self.grid.buildings.reserve_id()
    }

    /// The building with this id.
    pub fn get_building(&self, id: &Id) -> (r: Option<&Building>)
        ensures
            r == (if self.grid.buildings@.contains_key(*id) {
                Some(&self.grid.buildings@[*id])
            } else {
                None
            }),
    {
        self.grid.buildings.hash_map.get(id)
    }

    /// Puts `building` under `id`, and lists it among its city's houses when
    /// that city exists.
    pub fn insert_building(&mut self, id: Id, building: Building)
        ensures
            final(self).grid.buildings@ == old(self).grid.buildings@.insert(id, building),
            final(self).grid.buildings.id == old(self).grid.buildings.id,
            final(self).grid.tiles == old(self).grid.tiles,
            final(self).cities.id == old(self).cities.id,
            final(self).cities@.dom() == old(self).cities@.dom(),
            forall|c: Id| #[trigger] old(self).cities@.contains_key(c) ==> final(self).cities@[c] == (if c
                == building.city_id {
                City { houses: final(self).cities@[c].houses, ..old(self).cities@[c] }
            } else {
                old(self).cities@[c]
            }),
            old(self).cities@.contains_key(building.city_id) ==> final(self).cities@[building.city_id].houses@
                == old(self).cities@[building.city_id].houses@.push(id),
            final(self).vehicles == old(self).vehicles,
            final(self).metadata == old(self).metadata,
            final(self).tick == old(self).tick,
            old(self).wf() && old(self).cities@.contains_key(building.city_id) && placed(building)
                ==> final(self).wf(),
    {
        match self.cities.hash_map.remove(&building.city_id) {
            Some(mut city) => {
                city.houses.push(id);
                self.cities.hash_map.insert(building.city_id, city);
            },
            None => {},
        }
        self.grid.buildings.hash_map.insert(id, building);
        proof {
            assert(self.cities@.dom() =~= old(self).cities@.dom());
            if old(self).wf() && old(self).cities@.contains_key(building.city_id) && placed(building) {
                assert forall|b: Id| #[trigger] self.grid.buildings@.contains_key(b) implies self.cities@.contains_key(
                    self.grid.buildings@[b].city_id,
                ) && self.cities@[self.grid.buildings@[b].city_id].houses@.contains(b) by {
                    let c = self.grid.buildings@[b].city_id;
                    if b == id {
                        assert(self.cities@[c].houses@.last() == id);
                    } else {
                        let hs = old(self).cities@[c].houses@;
                        let k = choose|k: int| 0 <= k < hs.len() && hs[k] == b;
                        assert(self.cities@[c].houses@[k] == b);
                    }
                }
                assert(self.grid.buildings_placed());
                assert forall|c: Id| #[trigger] self.cities@.contains_key(c) implies c < self.cities.id by {
                    assert(old(self).cities@.contains_key(c));
                }
            }
        }
    }

    /// Sends a new vehicle from `start` to building `end` in `color`; `None`
    /// when there is no start or its tile cannot be held.
    pub fn add_vehicle(&mut self, start: Option<(Position, Direction)>, end: Id, color: SpawnerColors) -> (r:
        Option<Id>)
        requires
            old(self).wf(),
            old(self).vehicles.id < Id::MAX,
        ensures
            final(self).wf(),
            final(self).grid.buildings == old(self).grid.buildings,
            final(self).cities == old(self).cities,
            final(self).metadata == old(self).metadata,
            final(self).tick == old(self).tick,
            vehicle_added(*old(self), *final(self), start, end, color, r),
            start is None ==> *final(self) == *old(self),
    {
        let start = match start {
            Some(s) => s,
            None => {
                return None;
            },
        };
        let id = self.vehicles.id;
        match Vehicle::new(id, start, end, &mut self.grid, self.tick) {
            Ok(mut vehicle) => {
                vehicle.color = color;
                let r = self.vehicles.insert(vehicle);
                proof {
                    assert forall|k: Id| #[trigger] self.vehicles@.contains_key(k) implies self.vehicles@[k].wf() by {
                        if k != id {
                            assert(old(self).vehicles@.contains_key(k));
                        }
                    }
                }
                Some(r)
            },
            Err(_) => None,
        }
    }

    /// Puts `building` on the map under a new id, listed among its city's houses.
    pub fn add_building(&mut self, building: Building) -> (r: Id)
        requires
            old(self).grid.buildings.id < Id::MAX,
        ensures
            r == old(self).grid.buildings.id,
            final(self).grid.buildings@ == old(self).grid.buildings@.insert(r, building),
            final(self).grid.buildings.id == old(self).grid.buildings.id + 1,
            final(self).grid@ == old(self).grid@,
            final(self).grid.tiles == old(self).grid.tiles,
            final(self).cities.id == old(self).cities.id,
            final(self).cities@.dom() == old(self).cities@.dom(),
            forall|c: Id| #[trigger] old(self).cities@.contains_key(c) ==> final(self).cities@[c] == (if c
                == building.city_id {
                City { houses: final(self).cities@[c].houses, ..old(self).cities@[c] }
            } else {
                old(self).cities@[c]
            }),
            old(self).cities@.contains_key(building.city_id) ==> final(self).cities@[building.city_id].houses@
                == old(self).cities@[building.city_id].houses@.push(r),
            final(self).vehicles == old(self).vehicles,
            final(self).metadata == old(self).metadata,
            final(self).tick == old(self).tick,
            old(self).wf() && old(self).cities@.contains_key(building.city_id) && placed(building)
                ==> final(self).wf(),
    {
        let id = self.reserve_building_id();
        self.insert_building(id, building);
        id
    }

    /// Every vehicle can take one more tick: its trip counter and its
    /// reservations leave room.
    pub open spec fn vehicles_ready(&self) -> bool {
        forall|id: Id| #[trigger]
            self.vehicles@.contains_key(id) ==> self.vehicles@[id].elapsed_ticks < u32::MAX && ticks_fit(
                self.vehicles@[id]@,
            )
    }

    /// Updates every vehicle once at `tick`, in the order the vehicle map
    /// walks them, and returns those whose trip is over, with how it ended.
    fn update_vehicles<F: Fn(&Vehicle) -> bool>(&mut self, tick: Tick, is_late: F) -> (r: Vec<(Id, Status)>)
        requires
            old(self).wf(),
            old(self).vehicles_ready(),
            tick <= TICK_LIMIT,
            forall|v: &Vehicle| #[trigger] is_late.requires((v,)),
        ensures
            final(self).wf(),
            final(self).vehicles@.dom() == old(self).vehicles@.dom(),
            final(self).vehicles.id == old(self).vehicles.id,
            final(self).grid.buildings == old(self).grid.buildings,
            final(self).cities == old(self).cities,
            final(self).metadata == old(self).metadata,
            final(self).tick == old(self).tick,
            r@.map_values(|e: (Id, Status)| e.0).no_duplicates(),
            forall|i: int|
                0 <= i < r@.len() ==> (#[trigger] r@[i]).1 != Status::EnRoute && old(self).vehicles@.contains_key(
                    r@[i].0,
                ),
            exists|order: Seq<Id>, lates: Seq<bool>, probes: Seq<Vehicle>| #[trigger]
                vehicles_ticked(*old(self), *final(self), tick, is_late, order, lates, probes, r@),
    {
        let ids = self.vehicles.ids();
        let mut to_remove: Vec<(Id, Status)> = Vec::new();
        let ghost vs0 = vehicle_views(old(self).vehicles@);
        let ghost g0 = old(self).grid@;
        let ghost b0 = old(self).grid.buildings@;
        let ghost mut lates: Seq<bool> = seq![];
        let ghost mut probes: Seq<Vehicle> = seq![];
        let mut i: usize = 0;
        while i < ids.len()
            invariant
                0 <= i <= ids@.len(),
                ids@.to_set() == old(self).vehicles@.dom(),
                ids@.no_duplicates(),
                self.wf(),
                self.vehicles@.dom() == old(self).vehicles@.dom(),
                self.vehicles.id == old(self).vehicles.id,
                self.grid.buildings == old(self).grid.buildings,
                self.cities == old(self).cities,
                self.metadata == old(self).metadata,
                self.tick == old(self).tick,
                tick <= TICK_LIMIT,
                forall|v: &Vehicle| #[trigger] is_late.requires((v,)),
                forall|j: int| i <= j < ids@.len() ==> self.vehicles@[#[trigger] ids@[j]] == old(self).vehicles@[ids@[j]],
                old(self).vehicles_ready(),
                forall|k: int|
                    0 <= k < to_remove@.len() ==> (#[trigger] to_remove@[k]).1 != Status::EnRoute
                        && exists|j: int| 0 <= j < i && ids@[j] == to_remove@[k].0,
                forall|k1: int, k2: int|
                    0 <= k1 < k2 < to_remove@.len() ==> (#[trigger] to_remove@[k1]).0 != (#[trigger] to_remove@[k2]).0,
                forall|k: int, j: int|
                    0 <= k < to_remove@.len() && i <= j < ids@.len() ==> (#[trigger] to_remove@[k]).0 != #[trigger] ids@[j],
                vs0 == vehicle_views(old(self).vehicles@),
                g0 == old(self).grid@,
                b0 == old(self).grid.buildings@,
                lates.len() == i,
                probes.len() == i,
                (vehicle_views(self.vehicles@), self.grid@, to_remove@) == vehicles_run(vs0, g0, b0, tick, ids@, lates, i as nat),
                forall|k: int|
                    0 <= k < i ==> (#[trigger] probes[k])@ == late_probe(vs0, g0, b0, tick, ids@, lates, k as nat)
                        && is_late.ensures((&probes[k],), lates[k]),
            decreases ids@.len() - i,
        {
            let id = ids[i];
            assert(ids@.to_set().contains(id));
            let ghost vs_pre = self.vehicles@;
            let mut vehicle = match self.vehicles.hash_map.remove(&id) {
                Some(v) => v,
                None => {
                    i = i + 1;
                    continue;
                },
            };
            assert(vehicle == old(self).vehicles@[id]);
            let ghost pre = vehicle;
            let ghost g_pre = self.grid@;
            let ghost out_pre = to_remove@;
            let status = vehicle.update(&mut self.grid, tick, &is_late);
            let ghost mid = Vehicle { elapsed_ticks: (pre.elapsed_ticks + 1) as u32, ..pre };
            let ghost late = is_late.ensures((&mid,), true) && (status, vehicle@, self.grid@) == vehicle::spec_update(
                pre@,
                g_pre,
                b0,
                tick,
                true,
            );
            self.vehicles.hash_map.insert(id, vehicle);
            proof {
                assert(self.vehicles@.dom() =~= old(self).vehicles@.dom());
                assert forall|k: Id| #[trigger] self.vehicles@.contains_key(k) implies self.vehicles@[k].wf() by {}
                assert forall|c: Id| #[trigger] self.vehicles@.contains_key(c) implies c < self.vehicles.id by {
                    assert(old(self).vehicles@.contains_key(c));
                }
                assert forall|j: int| i + 1 <= j < ids@.len() implies self.vehicles@[#[trigger] ids@[j]] == old(self).vehicles@[ids@[j]] by {
                    assert(ids@[j] != ids@[i as int]);
                }
            }
            if status != Status::EnRoute {
                to_remove.push((id, status));
            }
            proof {
                let l2 = lates.push(late);
                assert(late ==> is_late.ensures((&mid,), true));
                assert((status, vehicle@, self.grid@) == vehicle::spec_update(pre@, g_pre, b0, tick, late)
                    && is_late.ensures((&mid,), late));
                assert(ids@[i as int] == id);
                assert(vehicle_views(vs_pre)[id] == pre@);
                lemma_run_step(vs0, g0, b0, tick, ids@, lates, late, i as nat);
                assert(vehicle_views(self.vehicles@) =~= vehicle_views(vs_pre).insert(id, vehicle@));
                assert forall|k: int| 0 <= k < i + 1 implies (#[trigger] probes.push(mid)[k])@ == late_probe(
                    vs0,
                    g0,
                    b0,
                    tick,
                    ids@,
                    l2,
                    k as nat,
                ) && is_late.ensures((&probes.push(mid)[k],), l2[k]) by {
                    if k < i {
                        assert(probes.push(mid)[k] == probes[k]);
                    }
                }
                lates = l2;
                probes = probes.push(mid);
            }
            i = i + 1;
        }
        proof {
            let names = to_remove@.map_values(|e: (Id, Status)| e.0);
            assert forall|k1: int, k2: int| 0 <= k1 < names.len() && 0 <= k2 < names.len() && k1 != k2 implies
                #[trigger] names[k1] != #[trigger] names[k2] by {
                if k1 < k2 {
                    assert(to_remove@[k1].0 != to_remove@[k2].0);
                } else {
                    assert(to_remove@[k2].0 != to_remove@[k1].0);
                }
            }
            assert forall|k: int| 0 <= k < to_remove@.len() implies (#[trigger] to_remove@[k]).1 != Status::EnRoute
                && old(self).vehicles@.contains_key(to_remove@[k].0) by {
                let j = choose|j: int| 0 <= j < i && ids@[j] == to_remove@[k].0;
                assert(ids@.to_set().contains(ids@[j]));
            }
            assert(vehicles_ticked(*old(self), *self, tick, is_late, ids@, lates, probes, to_remove@));
        }
        to_remove
    }

    /// Ends the trips in `list`: each vehicle's destination counts the trip
    /// (as arrived or not), then the vehicle leaves the map.
    fn finish_trips(&mut self, list: &Vec<(Id, Status)>)
        requires
            old(self).wf(),
            list@.map_values(|e: (Id, Status)| e.0).no_duplicates(),
        ensures
            final(self).wf(),
            final(self).grid.buildings@ == arrivals(old(self).grid.buildings@, old(self).vehicles@, list@),
            final(self).vehicles@ == old(self).vehicles@.remove_keys(list@.map_values(|e: (Id, Status)| e.0).to_set()),
            final(self).vehicles.id == old(self).vehicles.id,
            final(self).grid@ == old(self).grid@,
            final(self).grid.buildings.id == old(self).grid.buildings.id,
            final(self).cities == old(self).cities,
            final(self).metadata == old(self).metadata,
            final(self).tick == old(self).tick,
    {
        let mut i: usize = 0;
        while i < list.len()
            invariant
                0 <= i <= list@.len(),
                list@.map_values(|e: (Id, Status)| e.0).no_duplicates(),
                self.wf(),
                self.grid.buildings@ == arrivals(old(self).grid.buildings@, old(self).vehicles@, list@.take(i as int)),
                self.vehicles@ == old(self).vehicles@.remove_keys(
                    list@.take(i as int).map_values(|e: (Id, Status)| e.0).to_set(),
                ),
                self.vehicles.id == old(self).vehicles.id,
                self.grid@ == old(self).grid@,
                self.grid.buildings.id == old(self).grid.buildings.id,
                self.cities == old(self).cities,
                self.metadata == old(self).metadata,
                self.tick == old(self).tick,
            decreases list@.len() - i,
        {
            let (id, status) = list[i];
            let ghost prev_b = self.grid.buildings@;
            assert(list@.take(i + 1).drop_last() =~= list@.take(i as int));
            let ghost names = list@.map_values(|e: (Id, Status)| e.0);
            assert(list@.take(i + 1).map_values(|e: (Id, Status)| e.0).to_set() =~= list@.take(i as int).map_values(
                |e: (Id, Status)| e.0,
            ).to_set().insert(id)) by {
                assert(list@.take(i + 1).map_values(|e: (Id, Status)| e.0) =~= list@.take(i as int).map_values(
                    |e: (Id, Status)| e.0,
                ).push(id));
                list@.take(i as int).map_values(|e: (Id, Status)| e.0).lemma_push_to_set_commute(id);
            }
            let ghost before = list@.take(i as int).map_values(|e: (Id, Status)| e.0);
            assert(!before.to_set().contains(id)) by {
                if before.to_set().contains(id) {
                    assert(before.contains(id));
                    let k = choose|k: int| 0 <= k < before.len() && #[trigger] before[k] == id;
                    assert(before[k] == names[k]);
                    assert(names[k] == names[i as int]);
                }
            }
            assert(self.vehicles@.contains_key(id) == old(self).vehicles@.contains_key(id));
            let destination = match self.vehicles.hash_map.get(&id) {
                Some(vehicle) => Some(vehicle.destination),
                None => None,
            };
            match destination {
                Some(dest) => {
                    match self.grid.buildings.hash_map.remove(&dest) {
                        Some(mut building) => {
                            building.update_arrived(status == Status::ReachedDestination);
                            self.grid.buildings.hash_map.insert(dest, building);
                        },
                        None => {},
                    }
                },
                None => {},
            }
            self.vehicles.hash_map.remove(&id);
            proof {
                assert(self.vehicles@ =~= old(self).vehicles@.remove_keys(
                    list@.take(i + 1).map_values(|e: (Id, Status)| e.0).to_set(),
                ));
                assert(self.grid.buildings@ =~= arrivals(old(self).grid.buildings@, old(self).vehicles@, list@.take(i + 1)));
                assert forall|b: Id| #[trigger] self.grid.buildings@.contains_key(b) implies placed(self.grid.buildings@[b]) by {
                    assert(prev_b.contains_key(b));
                }
                assert forall|b: Id| #[trigger] self.grid.buildings@.contains_key(b) implies self.cities@.contains_key(
                    self.grid.buildings@[b].city_id,
                ) && self.cities@[self.grid.buildings@[b].city_id].houses@.contains(b) by {
                    assert(prev_b.contains_key(b));
                }
                assert forall|c: Id| #[trigger] self.vehicles@.contains_key(c) implies c < self.vehicles.id by {
                    assert(old(self).vehicles@.contains_key(c));
                }
            }
            i = i + 1;
        }
        assert(list@.take(list@.len() as int) =~= list@);
    }

    /// Every building's production counter can count one more tick.
    pub open spec fn buildings_ready(&self) -> bool {
        forall|id: Id| #[trigger] self.grid.buildings@.contains_key(id) ==> self.grid.buildings@[id].production_tics
            < i32::MAX
    }

    /// Every city can count one more tick, and has houses to pick from when
    /// it is due to grow.
    pub open spec fn cities_ready(&self) -> bool {
        forall|c: Id| #[trigger]
            self.cities@.contains_key(c) ==> self.cities@[c].houses@.len() <= 0x1_0000_0000
                && self.cities@[c].grow_ticks < u32::MAX && (self.cities@[c].grow_ticks + 1
                > self.cities@[c].grow_rate ==> 0 < self.cities@[c].houses@.len())
    }

    /// Counts a tick at every building (see `spec_building_update`); returns
    /// the buildings due to send a vehicle, in the order the map walks them,
    /// and whether every building had met its goal.
    fn produce(&mut self) -> (r: (Vec<Id>, bool))
        requires
            old(self).wf(),
            old(self).buildings_ready(),
        ensures
            final(self).wf(),
            final(self).grid.buildings@.dom() == old(self).grid.buildings@.dom(),
            forall|k: Id| #[trigger]
                old(self).grid.buildings@.contains_key(k) ==> final(self).grid.buildings@[k] == spec_building_update(
                    old(self).grid.buildings@[k],
                ).1,
            r.0@.no_duplicates(),
            forall|k: Id| #[trigger]
                r.0@.contains(k) <==> old(self).grid.buildings@.contains_key(k) && spec_building_update(
                    old(self).grid.buildings@[k],
                ).0,
            r.1 == (forall|k: Id| #[trigger]
                old(self).grid.buildings@.contains_key(k) ==> old(self).grid.buildings@[k].arrived_count
                    >= building::ARRIVED_GOAL),
            final(self).grid@ == old(self).grid@,
            final(self).grid.buildings.id == old(self).grid.buildings.id,
            final(self).vehicles == old(self).vehicles,
            final(self).cities == old(self).cities,
            final(self).metadata == old(self).metadata,
            final(self).tick == old(self).tick,
    {
        let ids = self.grid.buildings.ids();
        let mut due: Vec<Id> = Vec::new();
        let mut all_goals_met = true;
        let mut i: usize = 0;
        while i < ids.len()
            invariant
                0 <= i <= ids@.len(),
                ids@.to_set() == old(self).grid.buildings@.dom(),
                ids@.no_duplicates(),
                self.wf(),
                self.grid.buildings@.dom() == old(self).grid.buildings@.dom(),
                forall|j: int| 0 <= j < i ==> self.grid.buildings@[#[trigger] ids@[j]] == spec_building_update(
                    old(self).grid.buildings@[ids@[j]],
                ).1,
                forall|j: int| i <= j < ids@.len() ==> self.grid.buildings@[#[trigger] ids@[j]] == old(self).grid.buildings@[ids@[j]],
                old(self).buildings_ready(),
                due@.no_duplicates(),
                forall|k: Id| #[trigger]
                    due@.contains(k) <==> (exists|j: int| 0 <= j < i && ids@[j] == k) && spec_building_update(
                        old(self).grid.buildings@[k],
                    ).0,
                all_goals_met == (forall|j: int| 0 <= j < i ==> old(self).grid.buildings@[#[trigger] ids@[j]].arrived_count
                    >= building::ARRIVED_GOAL),
                self.grid@ == old(self).grid@,
                self.grid.buildings.id == old(self).grid.buildings.id,
                self.vehicles == old(self).vehicles,
                self.cities == old(self).cities,
                self.metadata == old(self).metadata,
                self.tick == old(self).tick,
            decreases ids@.len() - i,
        {
            let id = ids[i];
            assert(ids@.to_set().contains(id));
            let ghost before = self.grid.buildings@;
            let mut building = match self.grid.buildings.hash_map.remove(&id) {
                Some(b) => b,
                None => {
                    i = i + 1;
                    continue;
                },
            };
            let produces = building.update();
            let met = building.arrived_count >= building::ARRIVED_GOAL;
            self.grid.buildings.hash_map.insert(id, building);
            proof {
                assert(self.grid.buildings@ =~= before.insert(id, building));
                assert forall|j: int| i + 1 <= j < ids@.len() implies self.grid.buildings@[#[trigger] ids@[j]]
                    == old(self).grid.buildings@[ids@[j]] by {
                    assert(ids@[j] != ids@[i as int]);
                }
                assert forall|j: int| 0 <= j < i implies self.grid.buildings@[#[trigger] ids@[j]] == spec_building_update(
                    old(self).grid.buildings@[ids@[j]],
                ).1 by {
                    assert(ids@[j] != ids@[i as int]);
                }
                assert forall|b: Id| #[trigger] self.grid.buildings@.contains_key(b) implies placed(self.grid.buildings@[b]) by {
                    assert(before.contains_key(b));
                }
                assert forall|b: Id| #[trigger] self.grid.buildings@.contains_key(b) implies self.cities@.contains_key(
                    self.grid.buildings@[b].city_id,
                ) && self.cities@[self.grid.buildings@[b].city_id].houses@.contains(b) by {
                    assert(before.contains_key(b));
                }
            }
            if produces {
                let ghost d0 = due@;
                due.push(id);
                proof {
                    assert forall|a: int, b: int| 0 <= a < b < due@.len() implies due@[a] != due@[b] by {
                        if b == d0.len() {
                            if due@[a] == id {
                                assert(d0.contains(id));
                                let j = choose|j: int| 0 <= j < i && ids@[j] == id;
                                assert(ids@[j] == ids@[i as int]);
                            }
                        }
                    }
                    assert forall|k: Id| #[trigger] due@.contains(k) <==> (exists|j: int| 0 <= j < i + 1 && ids@[j] == k)
                        && spec_building_update(old(self).grid.buildings@[k]).0 by {
                        if due@.contains(k) && k != id {
                            let a = choose|a: int| 0 <= a < due@.len() && due@[a] == k;
                            assert(d0[a] == k);
                            assert(d0.contains(k));
                        }
                        if k == id {
                            assert(due@[d0.len() as int] == id);
                        }
                        if (exists|j: int| 0 <= j < i + 1 && ids@[j] == k) && spec_building_update(old(self).grid.buildings@[k]).0 && k != id {
                            let j = choose|j: int| 0 <= j < i + 1 && ids@[j] == k;
                            assert(j < i);
                            assert(d0.contains(k));
                            let a = choose|a: int| 0 <= a < d0.len() && d0[a] == k;
                            assert(due@[a] == k);
                        }
                    }
                }
            } else {
                proof {
                    assert forall|k: Id| #[trigger] due@.contains(k) <==> (exists|j: int| 0 <= j < i + 1 && ids@[j] == k)
                        && spec_building_update(old(self).grid.buildings@[k]).0 by {
                        if (exists|j: int| 0 <= j < i + 1 && ids@[j] == k) && spec_building_update(old(self).grid.buildings@[k]).0 {
                            let j = choose|j: int| 0 <= j < i + 1 && ids@[j] == k;
                            if j == i {
                                assert(false);
                            }
                        }
                    }
                }
            }
            if !met {
                all_goals_met = false;
            }
            i = i + 1;
        }
        proof {
            assert forall|k: Id| #[trigger] old(self).grid.buildings@.contains_key(k) implies self.grid.buildings@[k]
                == spec_building_update(old(self).grid.buildings@[k]).1 by {
                assert(ids@.to_set().contains(k));
                let j = choose|j: int| 0 <= j < ids@.len() && ids@[j] == k;
            }
            assert forall|k: Id| #[trigger] due@.contains(k) <==> old(self).grid.buildings@.contains_key(k)
                && spec_building_update(old(self).grid.buildings@[k]).0 by {
                if old(self).grid.buildings@.contains_key(k) {
                    assert(ids@.to_set().contains(k));
                }
                if exists|j: int| 0 <= j < ids@.len() && ids@[j] == k {
                    let j = choose|j: int| 0 <= j < ids@.len() && ids@[j] == k;
                    assert(ids@.to_set().contains(k));
                }
            }
            if all_goals_met {
                assert forall|k: Id| #[trigger] old(self).grid.buildings@.contains_key(k) implies old(
                    self,
                ).grid.buildings@[k].arrived_count >= building::ARRIVED_GOAL by {
                    assert(ids@.to_set().contains(k));
                    let j = choose|j: int| 0 <= j < ids@.len() && ids@[j] == k;
                }
            } else {
                let j = choose|j: int| 0 <= j < ids@.len() && !(old(self).grid.buildings@[#[trigger] ids@[j]].arrived_count
                    >= building::ARRIVED_GOAL);
                assert(ids@.to_set().contains(ids@[j]));
            }
        }
        (due, all_goals_met)
    }

    /// Takes the building with this id off the map, and off its city's houses.
    pub fn remove_building(&mut self, id: &Id) -> (r: Option<Building>)
        ensures
            r == (if old(self).grid.buildings@.contains_key(*id) {
                Some(old(self).grid.buildings@[*id])
            } else {
                None
            }),
            final(self).grid.buildings@ == old(self).grid.buildings@.remove(*id),
            final(self).grid.buildings.id == old(self).grid.buildings.id,
            final(self).grid.tiles == old(self).grid.tiles,
            final(self).cities.id == old(self).cities.id,
            final(self).cities@.dom() == old(self).cities@.dom(),
            forall|c: Id| #[trigger] old(self).cities@.contains_key(c) ==> final(self).cities@[c] == (if r
                is Some && c == r->0.city_id {
                City { houses: final(self).cities@[c].houses, ..old(self).cities@[c] }
            } else {
                old(self).cities@[c]
            }),
            r is Some && old(self).cities@.contains_key(r->0.city_id) ==> final(self).cities@[r->0.city_id].houses@
                == without_first(old(self).cities@[r->0.city_id].houses@, *id),
            final(self).vehicles == old(self).vehicles,
            final(self).metadata == old(self).metadata,
            final(self).tick == old(self).tick,
            old(self).wf() ==> final(self).wf(),
    {
        let removed = self.grid.buildings.hash_map.remove(id);
        match removed {
            Some(building) => {
                match self.cities.hash_map.remove(&building.city_id) {
                    Some(mut city) => {
                        let ghost houses = city.houses@;
                        let mut i: usize = 0;
                        while i < city.houses.len() && city.houses[i] != *id
                            invariant
                                0 <= i <= city.houses@.len(),
                                city.houses@ == houses,
                                forall|j: int| 0 <= j < i ==> houses[j] != *id,
                            decreases city.houses@.len() - i,
                        {
                            i = i + 1;
                        }
                        proof {
                            houses.index_of_first_ensures(*id);
                        }
                        if i < city.houses.len() {
                            proof {
                                assert(houses[i as int] == *id);
                                assert(houses.contains(*id));
                                assert(houses.index_of_first(*id) == Some(i as int));
                            }
                            city.houses.swap_remove(i);
                            proof {
                                assert(city.houses@ =~= swap_removed(houses, i as int));
                            }
                        } else {
                            proof {
                                assert(!houses.contains(*id));
                            }
                        }
                        self.cities.hash_map.insert(building.city_id, city);
                    },
                    None => {},
                }
                proof {
                    assert(self.cities@.dom() =~= old(self).cities@.dom());
                    if old(self).wf() {
                        assert forall|c: Id| #[trigger] self.cities@.contains_key(c) implies c < self.cities.id by {
                            assert(old(self).cities@.contains_key(c));
                        }
                        assert forall|b: Id| #[trigger] self.grid.buildings@.contains_key(b) implies placed(self.grid.buildings@[b]) by {
                            assert(old(self).grid.buildings@.contains_key(b));
                        }
                        assert forall|b: Id| #[trigger] self.grid.buildings@.contains_key(b) implies self.cities@.contains_key(
                            self.grid.buildings@[b].city_id,
                        ) && self.cities@[self.grid.buildings@[b].city_id].houses@.contains(b) by {
                            let c = self.grid.buildings@[b].city_id;
                            assert(old(self).grid.buildings@.contains_key(b));
                            let hs = old(self).cities@[c].houses@;
                            assert(hs.contains(b));
                            if c == building.city_id {
                                hs.index_of_first_ensures(*id);
                                let k = choose|k: int| 0 <= k < hs.len() && hs[k] == b;
                                let i = hs.index_of_first(*id)->0;
                                let t = self.cities@[c].houses@;
                                if k == hs.len() - 1 {
                                    if i < hs.len() - 1 {
                                        assert(t[i] == b);
                                    }
                                } else {
                                    assert(t[k] == b);
                                }
                            }
                        }
                    }
                }
                Some(building)
            },
            None => {
                proof {
                    assert(self.grid.buildings@ =~= old(self).grid.buildings@.remove(*id));
                }
                None
            },
        }
    }

    /// Building `from` sends a vehicle to building `to`: nothing happens when
    /// `to` is `from` or either is not on the map; when no vehicle can start
    /// from `from`'s spawn side, the trip counts as failed at `to`.
    pub fn spawn_vehicle(&mut self, from: Id, to: Id) -> (r: Option<Id>)
        requires
            old(self).wf(),
            old(self).vehicles.id < Id::MAX,
        ensures
            final(self).wf(),
            final(self).cities == old(self).cities,
            final(self).metadata == old(self).metadata,
            final(self).tick == old(self).tick,
            final(self).grid.buildings.id == old(self).grid.buildings.id,
            from == to || !old(self).grid.buildings@.contains_key(from) || !old(self).grid.buildings@.contains_key(to)
                ==> r is None && *final(self) == *old(self),
            from != to && old(self).grid.buildings@.contains_key(from) && old(self).grid.buildings@.contains_key(to)
                ==> {
                let b_to = old(self).grid.buildings@[to];
                &&& vehicle_added(
                    *old(self),
                    *final(self),
                    spec_spawn_pos(old(self).grid.buildings@[from], old(self).grid@),
                    to,
                    b_to.color,
                    r,
                )
                &&& final(self).grid.buildings@ == (if r is Some {
                    old(self).grid.buildings@
                } else {
                    old(self).grid.buildings@.insert(to, spec_update_arrived(b_to, false))
                })
            },
            spawned(*old(self), *final(self), from, to, r),
    {
        if from == to {
            return None;
        }
        let (start, color) = match self.grid.buildings.hash_map.get(&from) {
            Some(b_from) => match self.grid.buildings.hash_map.get(&to) {
                Some(b_to) => {
                    proof {
                        lemma_placed_sides_fit(*b_from, self.grid@);
                    }
                    (b_from.spawn_pos(&self.grid), b_to.color)
                },
                None => {
                    return None;
                },
            },
            None => {
                return None;
            },
        };
        let r = self.add_vehicle(start, to, color);
        if r.is_none() {
            let ghost before = self.grid.buildings@;
            match self.grid.buildings.hash_map.remove(&to) {
                Some(mut b) => {
                    b.update_arrived(false);
                    self.grid.buildings.hash_map.insert(to, b);
                },
                None => {},
            }
            proof {
                assert(self.grid.buildings@ =~= old(self).grid.buildings@.insert(
                    to,
                    spec_update_arrived(old(self).grid.buildings@[to], false),
                ));
                assert forall|b: Id| #[trigger] self.grid.buildings@.contains_key(b) implies placed(self.grid.buildings@[b]) by {
                    assert(before.contains_key(b));
                }
                assert forall|b: Id| #[trigger] self.grid.buildings@.contains_key(b) implies self.cities@.contains_key(
                    self.grid.buildings@[b].city_id,
                ) && self.cities@[self.grid.buildings@[b].city_id].houses@.contains(b) by {
                    assert(before.contains_key(b));
                }
            }
        }
        r
    }

    /// Counts a tick at every building, then lets each building that is due
    /// send a vehicle to a house of its city picked at random; returns
    /// whether every building had met its goal before the tick.
    fn update_buildings(&mut self) -> (r: bool)
        requires
            old(self).wf(),
            old(self).buildings_ready(),
            old(self).cities_ready(),
            old(self).vehicles.id + old(self).grid.buildings@.len() < Id::MAX,
        ensures
            final(self).wf(),
            r == (forall|k: Id| #[trigger]
                old(self).grid.buildings@.contains_key(k) ==> old(self).grid.buildings@[k].arrived_count
                    >= building::ARRIVED_GOAL),
            final(self).grid.buildings@.dom() == old(self).grid.buildings@.dom(),
            final(self).grid.buildings.id == old(self).grid.buildings.id,
            final(self).vehicles.id <= old(self).vehicles.id + old(self).grid.buildings@.len(),
            final(self).cities == old(self).cities,
            final(self).metadata == old(self).metadata,
            final(self).tick == old(self).tick,
            exists|mp: GameMap, due: Seq<Id>, tos: Seq<Id>, rs: Seq<Option<Id>>, ms: Seq<GameMap>|
                #[trigger] buildings_run(*old(self), *final(self), mp, due, tos, rs, ms),
    {
        let (due, all_goals_met) = self.produce();
        let ghost mp = *self;
        let ghost mut ms: Seq<GameMap> = seq![*self];
        let ghost mut tos: Seq<Id> = seq![];
        let ghost mut rs: Seq<Option<Id>> = seq![];
        proof {
            vstd::std_specs::hash::axiom_hashmap_view_finite_dom(self.grid.buildings.hash_map);
            due@.unique_seq_to_set();
            assert(due@.to_set().subset_of(self.grid.buildings@.dom()));
            vstd::set_lib::lemma_len_subset(due@.to_set(), self.grid.buildings@.dom());
        }
        let mut i: usize = 0;
        while i < due.len()
            invariant
                0 <= i <= due@.len(),
                due@.len() <= old(self).grid.buildings@.len(),
                self.wf(),
                self.vehicles.id <= old(self).vehicles.id + i,
                old(self).vehicles.id + old(self).grid.buildings@.len() < Id::MAX,
                self.grid.buildings@.dom() == old(self).grid.buildings@.dom(),
                self.grid.buildings.id == old(self).grid.buildings.id,
                self.cities == old(self).cities,
                old(self).cities_ready(),
                self.metadata == old(self).metadata,
                self.tick == old(self).tick,
                ms.len() == i + 1,
                tos.len() == i,
                rs.len() == i,
                ms[0] == mp,
                ms.last() == *self,
                forall|k: int| 0 <= k < i ==> #[trigger] send_step(ms[k], ms[k + 1], due@[k], tos[k], rs[k]),
            decreases due@.len() - i,
        {
            let from = due[i];
            let ghost before = *self;
            let city_id = match self.grid.buildings.hash_map.get(&from) {
                Some(b) => b.city_id,
                None => {
                    proof {
                        let ms2 = ms.push(*self);
                        assert(send_step(ms2[i as int], ms2[i + 1], due@[i as int], 0, None));
                        assert forall|k: int| 0 <= k < i + 1 implies #[trigger] send_step(
                            ms2[k],
                            ms2[k + 1],
                            due@[k],
                            tos.push(0)[k],
                            rs.push(None)[k],
                        ) by {
                            if k < i {
                                assert(ms2[k] == ms[k] && ms2[k + 1] == ms[k + 1]);
                            }
                        }
                        ms = ms2;
                        tos = tos.push(0);
                        rs = rs.push(None);
                    }
                    i = i + 1;
                    continue;
                },
            };
            let to = match self.cities.hash_map.get(&city_id) {
                Some(city) => city.random_house(),
                None => {
                    proof {
                        let ms2 = ms.push(*self);
                        assert(send_step(ms2[i as int], ms2[i + 1], due@[i as int], 0, None));
                        assert forall|k: int| 0 <= k < i + 1 implies #[trigger] send_step(
                            ms2[k],
                            ms2[k + 1],
                            due@[k],
                            tos.push(0)[k],
                            rs.push(None)[k],
                        ) by {
                            if k < i {
                                assert(ms2[k] == ms[k] && ms2[k + 1] == ms[k + 1]);
                            }
                        }
                        ms = ms2;
                        tos = tos.push(0);
                        rs = rs.push(None);
                    }
                    i = i + 1;
                    continue;
                },
            };
            let sent = self.spawn_vehicle(from, to);
            proof {
                let ms2 = ms.push(*self);
                assert(send_step(ms2[i as int], ms2[i + 1], due@[i as int], to, sent));
                assert forall|k: int| 0 <= k < i + 1 implies #[trigger] send_step(
                    ms2[k],
                    ms2[k + 1],
                    due@[k],
                    tos.push(to)[k],
                    rs.push(sent)[k],
                ) by {
                    if k < i {
                        assert(ms2[k] == ms[k] && ms2[k + 1] == ms[k + 1]);
                    }
                }
                ms = ms2;
                tos = tos.push(to);
                rs = rs.push(sent);
            }
            i = i + 1;
        }
        proof {
            assert(buildings_run(*old(self), *self, mp, due@, tos, rs, ms));
        }
        all_goals_met
    }

    /// Counts a tick at every city, in the order the city map walks them;
    /// returns the houses the cities grow on this tick.
    fn update_cities(&mut self) -> (r: Vec<Building>)
        requires
            old(self).wf(),
            old(self).cities_ready(),
        ensures
            final(self).wf(),
            final(self).cities@.dom() == old(self).cities@.dom(),
            final(self).cities.id == old(self).cities.id,
            forall|c: Id| #[trigger]
                old(self).cities@.contains_key(c) ==> final(self).cities@[c] == (City {
                    grow_ticks: final(self).cities@[c].grow_ticks,
                    ..old(self).cities@[c]
                }),
            forall|c: Id| #[trigger] old(self).cities@.contains_key(c) ==> final(self).cities@[c] == ticked(old(self).cities@[c]),
            exists|order: Seq<Id>, outs: Seq<Option<Building>>| #[trigger] cities_ticked(*old(self), order, outs, r@),
            forall|k: int|
                0 <= k < r@.len() ==> placed(#[trigger] r@[k]) && final(self).cities@.contains_key(r@[k].city_id),
            final(self).grid == old(self).grid,
            final(self).vehicles == old(self).vehicles,
            final(self).metadata == old(self).metadata,
            final(self).tick == old(self).tick,
    {
        let ids = self.cities.ids();
        let mut grown: Vec<Building> = Vec::new();
        let ghost mut outs: Seq<Option<Building>> = seq![];
        let mut i: usize = 0;
        while i < ids.len()
            invariant
                0 <= i <= ids@.len(),
                ids@.to_set() == old(self).cities@.dom(),
                ids@.no_duplicates(),
                self.wf(),
                self.cities@.dom() == old(self).cities@.dom(),
                self.cities.id == old(self).cities.id,
                forall|c: Id| #[trigger]
                    old(self).cities@.contains_key(c) ==> self.cities@[c] == (City {
                        grow_ticks: self.cities@[c].grow_ticks,
                        ..old(self).cities@[c]
                    }),
                forall|j: int| i <= j < ids@.len() ==> self.cities@[#[trigger] ids@[j]] == old(self).cities@[ids@[j]],
                forall|j: int| 0 <= j < i ==> self.cities@[#[trigger] ids@[j]] == ticked(old(self).cities@[ids@[j]]),
                outs.len() == i,
                forall|k: int| 0 <= k < i ==> update_result(old(self).cities@[ids@[k]], old(self).grid, #[trigger] outs[k]),
                grown@ == somes(outs),
                old(self).cities_ready(),
                forall|k: int|
                    0 <= k < grown@.len() ==> placed(#[trigger] grown@[k]) && self.cities@.contains_key(
                        grown@[k].city_id,
                    ),
                self.grid == old(self).grid,
                self.vehicles == old(self).vehicles,
                self.metadata == old(self).metadata,
                self.tick == old(self).tick,
            decreases ids@.len() - i,
        {
            let id = ids[i];
            assert(ids@.to_set().contains(id));
            let ghost before = self.cities@;
            let mut city = match self.cities.hash_map.remove(&id) {
                Some(c) => c,
                None => {
                    i = i + 1;
                    continue;
                },
            };
            let new_house = city.update(&self.grid);
            self.cities.hash_map.insert(id, city);
            proof {
                assert(self.cities@ =~= before.insert(id, city));
                assert forall|j: int| i + 1 <= j < ids@.len() implies self.cities@[#[trigger] ids@[j]] == old(
                    self,
                ).cities@[ids@[j]] by {
                    assert(ids@[j] != ids@[i as int]);
                }
                assert forall|c: Id| #[trigger] self.cities@.contains_key(c) implies c < self.cities.id by {
                    assert(old(self).cities@.contains_key(c));
                }
                assert forall|b: Id| #[trigger] self.grid.buildings@.contains_key(b) implies self.cities@.contains_key(
                    self.grid.buildings@[b].city_id,
                ) && self.cities@[self.grid.buildings@[b].city_id].houses@.contains(b) by {
                    assert(before.contains_key(self.grid.buildings@[b].city_id));
                }
            }
            match new_house {
                Some(b) => {
                    proof {
                        let (h, d) = choose|h: Id, d: Direction|
                            #![trigger before[id].houses@.contains(h), direction::is_cardinal(d)]
                            before[id].houses@.contains(h) && direction::is_cardinal(d)
                                && self.grid.buildings@.contains_key(h) && grow_site(
                                self.grid@,
                                self.grid.buildings@[h].pos,
                                d,
                                GROW_REACH as nat,
                            ) == Some(b.pos) && building::is_new_house(b, b.pos, before[id].id);
                        lemma_grow_site_on_grid(self.grid@, self.grid.buildings@[h].pos, d, GROW_REACH as nat);
                        lemma_tile_in_box(self.grid@, b.pos);
                    }
                    grown.push(b);
                },
                None => {},
            }
            proof {
                let o2 = outs.push(new_house);
                assert(o2.drop_last() =~= outs);
                assert(ids@[i as int] == id);
                assert forall|j: int| 0 <= j < i + 1 implies self.cities@[#[trigger] ids@[j]] == ticked(
                    old(self).cities@[ids@[j]],
                ) by {
                    if j < i {
                        assert(ids@[j] != ids@[i as int]);
                    }
                }
                outs = o2;
            }
            i = i + 1;
        }
        proof {
            assert forall|c: Id| #[trigger] old(self).cities@.contains_key(c) implies self.cities@[c] == ticked(
                old(self).cities@[c],
            ) by {
                assert(ids@.to_set().contains(c));
                let j = choose|j: int| 0 <= j < ids@.len() && ids@[j] == c;
            }
            assert(cities_ticked(*old(self), ids@, outs, grown@));
        }
        grown
    }

    /// Builds each of `houses` on the map (see `BuildActionBuilding::execute`),
    /// while building ids last.
    fn grow_houses(&mut self, houses: &Vec<Building>)
        requires
            old(self).wf(),
            forall|k: int|
                0 <= k < houses@.len() ==> placed(#[trigger] houses@[k]) && old(self).cities@.contains_key(
                    houses@[k].city_id,
                ),
        ensures
            final(self).wf(),
            final(self).grid.buildings@.dom().subset_of(old(self).grid.buildings@.dom().union(
                Set::new(|k: Id| old(self).grid.buildings.id <= k),
            )),
            old(self).grid.buildings@.dom().subset_of(final(self).grid.buildings@.dom()),
            final(self).cities@.dom() == old(self).cities@.dom(),
            (final(self).grid@, final(self).grid.buildings@, final(self).grid.buildings.id, city_houses(
                final(self).cities@,
            )) == houses_built(
                old(self).grid@,
                old(self).grid.buildings@,
                old(self).grid.buildings.id,
                city_houses(old(self).cities@),
                houses@,
                houses@.len() as nat,
            ),
            forall|c: Id| #[trigger]
                old(self).cities@.contains_key(c) ==> final(self).cities@[c] == (City {
                    houses: final(self).cities@[c].houses,
                    ..old(self).cities@[c]
                }),
            final(self).cities.id == old(self).cities.id,
            final(self).vehicles == old(self).vehicles,
            final(self).metadata == old(self).metadata,
            final(self).tick == old(self).tick,
    {
        let mut i: usize = 0;
        while i < houses.len()
            invariant
                0 <= i <= houses@.len(),
                self.wf(),
                forall|k: int|
                    0 <= k < houses@.len() ==> placed(#[trigger] houses@[k]) && old(self).cities@.contains_key(
                        houses@[k].city_id,
                    ),
                self.grid.buildings@.dom().subset_of(old(self).grid.buildings@.dom().union(
                    Set::new(|k: Id| old(self).grid.buildings.id <= k),
                )),
                old(self).grid.buildings@.dom().subset_of(self.grid.buildings@.dom()),
                old(self).grid.buildings.id <= self.grid.buildings.id,
                self.cities@.dom() == old(self).cities@.dom(),
                (self.grid@, self.grid.buildings@, self.grid.buildings.id, city_houses(self.cities@)) == houses_built(
                    old(self).grid@,
                    old(self).grid.buildings@,
                    old(self).grid.buildings.id,
                    city_houses(old(self).cities@),
                    houses@,
                    i as nat,
                ),
                forall|c: Id| #[trigger]
                    old(self).cities@.contains_key(c) ==> self.cities@[c] == (City {
                        houses: self.cities@[c].houses,
                        ..old(self).cities@[c]
                    }),
                self.cities.id == old(self).cities.id,
                self.vehicles == old(self).vehicles,
                self.metadata == old(self).metadata,
                self.tick == old(self).tick,
            decreases houses@.len() - i,
        {
            let ghost before = *self;
            if self.grid.buildings.id < Id::MAX {
                let mut action = BuildActionBuilding::new(houses[i]);
                let _ = action.execute(self);
                proof {
                    let h = houses@[i as int];
                    let hs1 = city_houses(before.cities@);
                    assert(hs1.contains_key(h.city_id));
                    assert(city_houses(self.cities@) =~= hs1.insert(h.city_id, hs1[h.city_id].push(before.grid.buildings.id)));
                }
            }
            i = i + 1;
        }
    }

    /// All that one more tick needs: a well-formed map whose vehicles,
    /// buildings and cities can count it, a tick and ids that leave room.
    pub open spec fn update_ready(&self) -> bool {
        &&& self.wf()
        &&& self.tick <= TICK_LIMIT
        &&& self.vehicles_ready()
        &&& self.buildings_ready()
        &&& self.cities_ready()
        &&& self.vehicles.id + self.grid.buildings@.len() < Id::MAX
    }

    /// Whether the map is well formed (see `wf`).
    pub fn check_wf(&self) -> (r: bool)
        ensures
            r == self.wf(),
    {
        if !self.grid.check_wf() || !self.grid.check_route_bounds() || !self.grid.check_buildings_placed() {
            return false;
        }
        if !self.cities.is_fresh() || !self.vehicles.is_fresh() {
            return false;
        }
        let building_ids = self.grid.buildings.ids();
        let mut i: usize = 0;
        while i < building_ids.len()
            invariant
                0 <= i <= building_ids@.len(),
                building_ids@.to_set() == self.grid.buildings@.dom(),
                forall|j: int|
                    0 <= j < i ==> {
                        let b = #[trigger] self.grid.buildings@[building_ids@[j]];
                        self.cities@.contains_key(b.city_id) && self.cities@[b.city_id].houses@.contains(building_ids@[j])
                    },
            decreases building_ids@.len() - i,
        {
            let id = building_ids[i];
            assert(building_ids@.to_set().contains(id));
            let city_id = match self.grid.buildings.hash_map.get(&id) {
                Some(b) => b.city_id,
                None => {
                    i = i + 1;
                    continue;
                },
            };
            match self.cities.hash_map.get(&city_id) {
                Some(city) => {
                    let mut k: usize = 0;
                    while k < city.houses.len() && city.houses[k] != id
                        invariant
                            0 <= k <= city.houses@.len(),
                            forall|m: int| 0 <= m < k ==> city.houses@[m] != id,
                        decreases city.houses@.len() - k,
                    {
                        k = k + 1;
                    }
                    if k == city.houses.len() {
                        return false;
                    }
                    assert(city.houses@[k as int] == id);
                },
                None => {
                    return false;
                },
            }
            i = i + 1;
        }
        let vehicle_ids = self.vehicles.ids();
        let mut i: usize = 0;
        while i < vehicle_ids.len()
            invariant
                0 <= i <= vehicle_ids@.len(),
                vehicle_ids@.to_set() == self.vehicles@.dom(),
                forall|j: int| 0 <= j < i ==> (#[trigger] self.vehicles@[vehicle_ids@[j]]).wf(),
            decreases vehicle_ids@.len() - i,
        {
            assert(vehicle_ids@.to_set().contains(vehicle_ids@[i as int]));
            match self.vehicles.hash_map.get(&vehicle_ids[i]) {
                Some(v) => {
                    if !v.check_wf() {
                        return false;
                    }
                },
                None => {},
            }
            i = i + 1;
        }
        let city_ids = self.cities.ids();
        let mut i: usize = 0;
        while i < city_ids.len()
            invariant
                0 <= i <= city_ids@.len(),
                city_ids@.to_set() == self.cities@.dom(),
                forall|j: int| 0 <= j < i ==> (#[trigger] self.cities@[city_ids@[j]]).id == city_ids@[j],
            decreases city_ids@.len() - i,
        {
            assert(city_ids@.to_set().contains(city_ids@[i as int]));
            match self.cities.hash_map.get(&city_ids[i]) {
                Some(c) => {
                    if c.id != city_ids[i] {
                        return false;
                    }
                },
                None => {},
            }
            i = i + 1;
        }
        proof {
            assert forall|id: Id| #[trigger] self.grid.buildings@.contains_key(id) implies self.cities@.contains_key(
                self.grid.buildings@[id].city_id,
            ) && self.cities@[self.grid.buildings@[id].city_id].houses@.contains(id) by {
                assert(building_ids@.to_set().contains(id));
                let j = choose|j: int| 0 <= j < building_ids@.len() && building_ids@[j] == id;
            }
            assert forall|id: Id| #[trigger] self.vehicles@.contains_key(id) implies self.vehicles@[id].wf() by {
                assert(vehicle_ids@.to_set().contains(id));
                let j = choose|j: int| 0 <= j < vehicle_ids@.len() && vehicle_ids@[j] == id;
            }
            assert forall|c: Id| #[trigger] self.cities@.contains_key(c) implies self.cities@[c].id == c by {
                assert(city_ids@.to_set().contains(c));
                let j = choose|j: int| 0 <= j < city_ids@.len() && city_ids@[j] == c;
            }
        }
        true
    }

    /// Whether one more tick can be counted (see `update_ready`), on any map.
    pub fn check_update_ready(&self) -> (r: bool)
        ensures
            r == self.update_ready(),
    {
        self.check_wf() && self.is_update_ready()
    }

    /// Whether one more tick can be counted (see `update_ready`) on a
    /// well-formed map.
    pub fn is_update_ready(&self) -> (r: bool)
        requires
            self.wf(),
        ensures
            r == self.update_ready(),
    {
        if self.tick > TICK_LIMIT {
            return false;
        }
        let buildings = self.grid.buildings.hash_map.len();
        if self.vehicles.id >= Id::MAX || (buildings as u64) >= Id::MAX - self.vehicles.id {
            return false;
        }
        let vehicle_ids = self.vehicles.ids();
        let mut i: usize = 0;
        while i < vehicle_ids.len()
            invariant
                0 <= i <= vehicle_ids@.len(),
                vehicle_ids@.to_set() == self.vehicles@.dom(),
                forall|j: int|
                    0 <= j < i ==> #[trigger] self.vehicles@[vehicle_ids@[j]].elapsed_ticks < u32::MAX && ticks_fit(
                        self.vehicles@[vehicle_ids@[j]]@,
                    ),
            decreases vehicle_ids@.len() - i,
        {
            match self.vehicles.hash_map.get(&vehicle_ids[i]) {
                Some(v) => {
                    if !v.ready() {
                        assert(vehicle_ids@.to_set().contains(vehicle_ids@[i as int]));
                        return false;
                    }
                },
                None => {
                    assert(vehicle_ids@.to_set().contains(vehicle_ids@[i as int]));
                },
            }
            i = i + 1;
        }
        proof {
            assert forall|id: Id| #[trigger] self.vehicles@.contains_key(id) implies self.vehicles@[id].elapsed_ticks
                < u32::MAX && ticks_fit(self.vehicles@[id]@) by {
                assert(vehicle_ids@.to_set().contains(id));
                let j = choose|j: int| 0 <= j < vehicle_ids@.len() && vehicle_ids@[j] == id;
            }
        }
        let building_ids = self.grid.buildings.ids();
        let mut i: usize = 0;
        while i < building_ids.len()
            invariant
                0 <= i <= building_ids@.len(),
                building_ids@.to_set() == self.grid.buildings@.dom(),
                forall|j: int|
                    0 <= j < i ==> #[trigger] self.grid.buildings@[building_ids@[j]].production_tics < i32::MAX,
            decreases building_ids@.len() - i,
        {
            match self.grid.buildings.hash_map.get(&building_ids[i]) {
                Some(b) => {
                    if b.production_tics == i32::MAX {
                        assert(building_ids@.to_set().contains(building_ids@[i as int]));
                        return false;
                    }
                },
                None => {
                    assert(building_ids@.to_set().contains(building_ids@[i as int]));
                },
            }
            i = i + 1;
        }
        proof {
            assert forall|id: Id| #[trigger] self.grid.buildings@.contains_key(id) implies self.grid.buildings@[id].production_tics
                < i32::MAX by {
                assert(building_ids@.to_set().contains(id));
                let j = choose|j: int| 0 <= j < building_ids@.len() && building_ids@[j] == id;
            }
        }
        let city_ids = self.cities.ids();
        let mut i: usize = 0;
        while i < city_ids.len()
            invariant
                0 <= i <= city_ids@.len(),
                city_ids@.to_set() == self.cities@.dom(),
                forall|j: int|
                    0 <= j < i ==> {
                        let c = #[trigger] self.cities@[city_ids@[j]];
                        c.houses@.len() <= 0x1_0000_0000 && c.grow_ticks < u32::MAX && (c.grow_ticks + 1
                            > c.grow_rate ==> 0 < c.houses@.len())
                    },
            decreases city_ids@.len() - i,
        {
            match self.cities.hash_map.get(&city_ids[i]) {
                Some(c) => {
                    let too_many = c.houses.len() as u64 > 0x1_0000_0000u64;
                    if too_many || c.grow_ticks == u32::MAX || (c.grow_ticks + 1 > c.grow_rate
                        && c.houses.len() == 0) {
                        assert(city_ids@.to_set().contains(city_ids@[i as int]));
                        return false;
                    }
                },
                None => {
                    assert(city_ids@.to_set().contains(city_ids@[i as int]));
                },
            }
            i = i + 1;
        }
        proof {
            assert forall|c: Id| #[trigger] self.cities@.contains_key(c) implies ({
                let city = self.cities@[c];
                city.houses@.len() <= 0x1_0000_0000 && city.grow_ticks < u32::MAX && (city.grow_ticks + 1
                    > city.grow_rate ==> 0 < city.houses@.len())
            }) by {
                assert(city_ids@.to_set().contains(c));
                let j = choose|j: int| 0 <= j < city_ids@.len() && city_ids@[j] == c;
            }
        }
        true
    }

    /// One tick of the game: every vehicle moves on (asking `is_late` whether
    /// it is hopelessly late), the trips that ended count at their
    /// destinations, the buildings send new vehicles, and the cities grow
    /// when the map lets them (see `tick_result`; the order in which the
    /// vehicles, buildings and cities are walked, and the houses picked at
    /// random, are what the existential leaves open). Returns whether every
    /// building had met its goal while the level was not complete yet.
    pub fn update<F: Fn(&Vehicle) -> bool>(&mut self, is_late: F) -> (r: bool)
        requires
            old(self).update_ready(),
            forall|v: &Vehicle| #[trigger] is_late.requires((v,)),
        ensures
            final(self).wf(),
            final(self).tick == old(self).tick + 1,
            final(self).metadata == old(self).metadata,
            final(self).cities@.dom() == old(self).cities@.dom(),
            old(self).grid.buildings@.dom().subset_of(final(self).grid.buildings@.dom()),
            !old(self).metadata.grow_cities ==> final(self).grid.buildings@.dom() == old(self).grid.buildings@.dom(),
            r ==> !old(self).metadata.level_complete,
            exists|
                m1: GameMap,
                m2: GameMap,
                m3: GameMap,
                m4: GameMap,
                m5: GameMap,
                order: Seq<Id>,
                lates: Seq<bool>,
                probes: Seq<Vehicle>,
                fin: Seq<(Id, Status)>,
                c_order: Seq<Id>,
                outs: Seq<Option<Building>>,
                grown: Seq<Building>,
                goals_met: bool,
                mp: GameMap,
                due: Seq<Id>,
                tos: Seq<Id>,
                rs: Seq<Option<Id>>,
                ms: Seq<GameMap>,
            |
                #[trigger] tick_result(
                    *old(self),
                    *final(self),
                    r,
                    is_late,
                    m1,
                    m2,
                    m3,
                    m4,
                    m5,
                    order,
                    lates,
                    probes,
                    fin,
                    c_order,
                    outs,
                    grown,
                    goals_met,
                    mp,
                    due,
                    tos,
                    rs,
                    ms,
                ),
    {
        let tick = self.tick;
        let finished = self.update_vehicles(tick, is_late);
        let ghost moved = self.vehicles@;
        let ghost m1 = *self;
        self.finish_trips(&finished);
        let ghost m2 = *self;
        proof {
            assert(self.grid.buildings@.dom() =~= old(self).grid.buildings@.dom()) by {
                lemma_arrivals_dom(old(self).grid.buildings@, moved, finished@);
            }
            assert forall|id: Id| #[trigger] self.grid.buildings@.contains_key(id) implies self.grid.buildings@[id].production_tics
                < i32::MAX by {
                lemma_arrivals_dom(old(self).grid.buildings@, moved, finished@);
            }
        }
        let all_goals_met = self.update_buildings();
        let ghost m3 = *self;
        let grown = self.update_cities();
        let ghost m4 = *self;
        if self.metadata.grow_cities {
            self.grow_houses(&grown);
        }
        let ghost m5 = *self;
        self.tick = tick + 1;
        let r = all_goals_met && !self.metadata.level_complete;
        proof {
            let (order, lates, probes) = choose|order: Seq<Id>, lates: Seq<bool>, probes: Seq<Vehicle>|
                #[trigger] vehicles_ticked(*old(self), m1, tick, is_late, order, lates, probes, finished@);
            let (c_order, outs) = choose|c_order: Seq<Id>, outs: Seq<Option<Building>>|
                #[trigger] cities_ticked(m3, c_order, outs, grown@);
            let (mp, due, tos, rs, ms) = choose|
                mp: GameMap,
                due: Seq<Id>,
                tos: Seq<Id>,
                rs: Seq<Option<Id>>,
                ms: Seq<GameMap>,
            | #[trigger] buildings_run(m2, m3, mp, due, tos, rs, ms);
            assert(tick_result(
                *old(self),
                *self,
                r,
                is_late,
                m1,
                m2,
                m3,
                m4,
                m5,
                order,
                lates,
                probes,
                finished@,
                c_order,
                outs,
                grown@,
                all_goals_met,
                mp,
                due,
                tos,
                rs,
                ms,
            ));
        }
        r
    }

    /// Founds the city `name` at `pos` and puts up four houses of it around
    /// `pos` (see `house_sites`), under the next building ids.
    fn new_city_generate(&mut self, pos: Position, name: String) -> (r: build::BuildResult)
        requires
            old(self).wf(),
            old(self).cities.id < Id::MAX,
            old(self).grid.buildings.id + 4 < Id::MAX,
            old(self).grid.buildings.fresh(),
            city_site_free(old(self).grid@, pos),
        ensures
            r is Ok,
            final(self).wf(),
            final(self).cities.id == old(self).cities.id + 1,
            final(self).cities@.dom() == old(self).cities@.dom().insert(old(self).cities.id),
            forall|c: Id| #[trigger] old(self).cities@.contains_key(c) ==> final(self).cities@[c] == old(
                self,
            ).cities@[c],
            ({
                let city = final(self).cities@[old(self).cities.id];
                let b0 = old(self).grid.buildings.id;
                &&& city.pos == pos
                &&& city.name == name
                &&& city.id == old(self).cities.id
                &&& city.grow_rate == city::CITY_GROW_TICKS
                &&& city.grow_ticks < city::CITY_GROW_TICKS
                &&& city.houses@ == seq![b0, (b0 + 1) as Id, (b0 + 2) as Id, (b0 + 3) as Id]
            }),
            final(self).grid.buildings.id == old(self).grid.buildings.id + 4,
            final(self).grid.buildings@.dom() == old(self).grid.buildings@.dom().union(
                set![
                    old(self).grid.buildings.id,
                    (old(self).grid.buildings.id + 1) as Id,
                    (old(self).grid.buildings.id + 2) as Id,
                    (old(self).grid.buildings.id + 3) as Id,
                ],
            ),
            forall|b: Id| #[trigger]
                old(self).grid.buildings@.contains_key(b) ==> final(self).grid.buildings@[b] == old(
                    self,
                ).grid.buildings@[b],
            forall|k: int|
                0 <= k < 4 ==> building::is_new_house(
                    #[trigger] final(self).grid.buildings@[(old(self).grid.buildings.id + k) as Id],
                    house_sites(pos)[k],
                    old(self).cities.id,
                ),
            final(self).grid@.len() == old(self).grid@.len(),
            forall|y: int| 0 <= y < old(self).grid@.len() ==> #[trigger] final(self).grid@[y].len() == old(
                self,
            ).grid@[y].len(),
            forall|q: Position| #[trigger]
                spec_tile_at(final(self).grid@, q) == generated_tile(
                    pos,
                    q,
                    4,
                    old(self).grid.buildings.id,
                    spec_tile_at(old(self).grid@, q),
                ),
            final(self).vehicles == old(self).vehicles,
            final(self).metadata == old(self).metadata,
            final(self).tick == old(self).tick,
    {
        let city_id = self.new_city(pos, name);
        let offsets = [
            Direction::new(2, 2, 0),
            Direction::new(2, -2, 0),
            Direction::new(-2, 2, 0),
            Direction::new(-2, -2, 0),
        ];
        let ghost m0 = *self;
        let ghost b0 = self.grid.buildings.id;
        let mut k: usize = 0;
        while k < 4
            invariant
                0 <= k <= 4,
                self.wf(),
                city_site_free(old(self).grid@, pos),
                b0 == old(self).grid.buildings.id,
                old(self).grid.buildings.id + 4 < Id::MAX,
                city_id == old(self).cities.id,
                !old(self).cities@.contains_key(city_id),
                old(self).grid.buildings.fresh(),
                offsets@ == seq![
                    Direction { x: 2, y: 2, z: 0 },
                    Direction { x: 2, y: -2i8, z: 0 },
                    Direction { x: -2i8, y: 2, z: 0 },
                    Direction { x: -2i8, y: -2i8, z: 0 },
                ],
                self.grid.buildings.id == b0 + k,
                self.cities.id == old(self).cities.id + 1,
                self.cities@.dom() == old(self).cities@.dom().insert(city_id),
                forall|c: Id| #[trigger] old(self).cities@.contains_key(c) ==> self.cities@[c] == old(self).cities@[c],
                ({
                    let city = self.cities@[city_id];
                    &&& city.pos == pos
                    &&& city.name == m0.cities@[city_id].name
                    &&& city.id == city_id
                    &&& city.grow_rate == city::CITY_GROW_TICKS
                    &&& city.grow_ticks == m0.cities@[city_id].grow_ticks
                    &&& city.houses@ == Seq::new(k as nat, |i: int| (b0 + i) as Id)
                }),
                self.grid.buildings@.dom() == old(self).grid.buildings@.dom().union(
                    Set::new(|b: Id| b0 <= b < b0 + k),
                ),
                forall|b: Id| #[trigger]
                    old(self).grid.buildings@.contains_key(b) ==> self.grid.buildings@[b] == old(self).grid.buildings@[b],
                forall|i: int|
                    0 <= i < k ==> building::is_new_house(
                        #[trigger] self.grid.buildings@[(b0 + i) as Id],
                        house_sites(pos)[i],
                        city_id,
                    ),
                self.grid@.len() == old(self).grid@.len(),
                forall|y: int| 0 <= y < old(self).grid@.len() ==> #[trigger] self.grid@[y].len() == old(self).grid@[y].len(),
                forall|q: Position| #[trigger]
                    spec_tile_at(self.grid@, q) == generated_tile(pos, q, k as int, b0, spec_tile_at(old(self).grid@, q)),
                self.vehicles == old(self).vehicles,
                self.metadata == old(self).metadata,
                self.tick == old(self).tick,
            decreases 4 - k,
        {
            let site = pos + offsets[k];
            let house = Building::new_house(site, city_id);
            let mut action = BuildActionBuilding::new(house);
            let ghost g0 = self.grid@;
            let ghost houses0 = self.cities@[city_id].houses@;
            let ghost cities0 = self.cities@;
            let ghost buildings0 = self.grid.buildings@;
            proof {
                assert(site == house_sites(pos)[k as int]);
                assert forall|j: int| 0 <= j < 4 implies #[trigger] spec_tile_at(g0, position::plus(site, direction::spec_square()[j]))
                    == Some(TileView::Empty) by {
                    let q = position::plus(site, direction::spec_square()[j]);
                    assert(in_block(house_sites(pos)[k as int], q));
                    assert(spec_tile_at(old(self).grid@, q) == Some(TileView::Empty));
                }
                build::lemma_mark_free_block(g0, site, (b0 + k) as Id, 0);
            }
            let _ = action.execute(self);
            proof {
                assert forall|c: Id| #[trigger] old(self).cities@.contains_key(c) implies self.cities@[c] == old(
                    self,
                ).cities@[c] by {
                    assert(c != city_id);
                    assert(cities0.contains_key(c));
                }
                assert(cities0.contains_key(city_id));
                assert forall|b: Id| #[trigger] old(self).grid.buildings@.contains_key(b) implies self.grid.buildings@[b]
                    == old(self).grid.buildings@[b] by {
                    assert(b < b0);
                    assert(buildings0.contains_key(b));
                }
                assert(self.cities@[city_id] == City { houses: self.cities@[city_id].houses, ..cities0[city_id] });
                assert(self.cities@[city_id].houses@ =~= Seq::new((k + 1) as nat, |i: int| (b0 + i) as Id));
                assert(self.grid.buildings@.dom() =~= old(self).grid.buildings@.dom().union(
                    Set::new(|b: Id| b0 <= b < b0 + k + 1),
                ));
                assert forall|q: Position| #[trigger]
                    spec_tile_at(self.grid@, q) == generated_tile(pos, q, k + 1, b0, spec_tile_at(old(self).grid@, q)) by {
                    assert(build::block_from(site, q, 0) == in_block(site, q));
                }
            }
            k = k + 1;
        }
        proof {
            assert(self.cities@[city_id].houses@ =~= seq![b0, (b0 + 1) as Id, (b0 + 2) as Id, (b0 + 3) as Id]);
            assert(Set::new(|b: Id| b0 <= b < b0 + 4) =~= set![b0, (b0 + 1) as Id, (b0 + 2) as Id, (b0 + 3) as Id]);
        }
        Ok(())
    }

    /// A new free game on a grid of `size.0` by `size.1` tiles: an empty map
    /// with the city "CityVille" in its middle and its first four houses.
    pub fn new_generate(size: (i16, i16)) -> (r: GameMap)
        requires
            7 <= size.0 <= 0x1000,
            7 <= size.1 <= 0x1000,
        ensures
            r.wf(),
            r.grid@.len() == size.1,
            forall|y: int| 0 <= y < size.1 ==> #[trigger] r.grid@[y].len() == size.0,
            forall|q: Position|
                0 <= q.x < size.0 && 0 <= q.y < size.1 && 0 <= q.z <= 1 ==> #[trigger] spec_tile_at(r.grid@, q)
                    == generated_tile(
                    Position { x: (size.0 / 2) as i16, y: (size.1 / 2) as i16, z: 0 },
                    q,
                    4,
                    1,
                    Some(TileView::Empty),
                ),
            r.grid.buildings@.dom() == set![1u64, 2u64, 3u64, 4u64],
            forall|k: int|
                0 <= k < 4 ==> building::is_new_house(
                    #[trigger] r.grid.buildings@[(k + 1) as Id],
                    house_sites(Position { x: (size.0 / 2) as i16, y: (size.1 / 2) as i16, z: 0 })[k],
                    1,
                ),
            r.cities@.dom() == set![1u64],
            r.cities@[1].name@ == "CityVille"@,
            r.cities@[1].pos == (Position { x: (size.0 / 2) as i16, y: (size.1 / 2) as i16, z: 0 }),
            r.cities@[1].houses@ == seq![1u64, 2u64, 3u64, 4u64],
            r.vehicles@ == Map::<Id, Vehicle>::empty(),
            r.vehicles.id == 1,
            r.metadata == MapMetadata::new(),
            r.tick == 0,
    {
        let mut map = GameMap::new_blank(size);
        let center = Position::new(size.0 / 2, size.1 / 2);
        proof {
            assert forall|k: int, q: Position|
                0 <= k < 4 && #[trigger] in_block(house_sites(center)[k], q) implies #[trigger] spec_tile_at(
                map.grid@,
                q,
            ) == Some(TileView::Empty) by {
                assert(map.grid@[q.y as int][q.x as int] == (TileView::Empty, TileView::Empty));
            }
        }
        let ghost g0 = map.grid@;
        let ghost b0 = map.grid.buildings.id;
        let _ = map.new_city_generate(center, "CityVille".to_string());
        proof {
            assert(b0 == 1);
            assert forall|y: int| 0 <= y < size.1 implies #[trigger] map.grid@[y].len() == size.0 by {
                assert(g0[y][0] == (TileView::Empty, TileView::Empty));
            }
            assert forall|k: int| 0 <= k < 4 implies building::is_new_house(
                #[trigger] map.grid.buildings@[(k + 1) as Id],
                house_sites(center)[k],
                1,
            ) by {
                assert(building::is_new_house(map.grid.buildings@[(b0 + k) as Id], house_sites(center)[k], 1));
            }
            assert(map.grid.buildings@.dom() =~= set![1u64, 2u64, 3u64, 4u64]);
            assert(map.cities@.dom() =~= set![1u64]);
            assert forall|q: Position|
                0 <= q.x < size.0 && 0 <= q.y < size.1 && 0 <= q.z <= 1 implies #[trigger] spec_tile_at(map.grid@, q)
                == generated_tile(center, q, 4, 1, Some(TileView::Empty)) by {
                assert(g0[q.y as int][q.x as int] == (TileView::Empty, TileView::Empty));
                assert(spec_tile_at(g0, q) == Some(TileView::Empty));
            }
        }
        map
    }
}

/// Counting trips changes which buildings there are not, nor their production counters.
pub proof fn lemma_arrivals_dom(buildings: Map<Id, Building>, vehicles: Map<Id, Vehicle>, list: Seq<(Id, Status)>)
    ensures
        arrivals(buildings, vehicles, list).dom() == buildings.dom(),
        forall|k: Id| #[trigger]
            buildings.contains_key(k) ==> arrivals(buildings, vehicles, list)[k].production_tics
                == buildings[k].production_tics,
    decreases list.len(),
{
    if list.len() > 0 {
        lemma_arrivals_dom(buildings, vehicles, list.drop_last());
        let prev = arrivals(buildings, vehicles, list.drop_last());
        let (id, status) = list.last();
        if vehicles.contains_key(id) && prev.contains_key(vehicles[id].destination) {
            assert(arrivals(buildings, vehicles, list).dom() =~= prev.dom());
        }
    }
}

} // verus!
