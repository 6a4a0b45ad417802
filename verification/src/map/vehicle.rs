use vstd::prelude::*;
use std::collections::VecDeque;

use crate::consts::SpawnerColors;
use crate::hash_map_id::Id;
use super::direction::Direction;
use super::grid::{lemma_set_tile_at, lemma_set_tile_bounds, lemma_set_tile_same, lemma_tile_in_box, spec_set_tile, spec_tile_at, within_route_bounds, Grid};
use super::building::Building;
use super::path::{find_path_in, in_route_box, lemma_request_fits, path_view, Path};
use super::position::{difference_fits, spec_difference};
use super::position::Position;
use super::tile::{
    spec_is_reserved, spec_reserve, spec_unreserve, tile_building_id, Reservation, ReservationError,
    Tick, Tile, TileView,
};

verus! {

/// Pixels a vehicle moves per tick.
pub const SPEED_PIXELS: i32 = 4;

/// Ticks a vehicle takes to cross a tile of 32 pixels at that speed.
pub const SPEED_TICKS: Tick = 8;

/// Reservations a vehicle keeps ahead: the tile it is on and the next one.
pub const RESERVE_AHEAD_MIN: usize = 2;

/// The most reservations a vehicle holds and plans at once.
pub const RESERVE_AHEAD_MAX: usize = 8;

/// The last tick at which planning ahead keeps every tick inside `Tick`.
pub const TICK_LIMIT: Tick = 0xffff_ff00;

/// Why a vehicle could not plan further along its route.
#[derive(Clone, Copy, PartialEq, Eq, Structural, Debug)]
pub enum ReservePathError {
    /// There is no route, or it leads over a tile that cannot be held.
    InvalidPath,
    /// The crossing ahead is longer than a vehicle may plan.
    ReachedMaxLookahead,
    /// Another vehicle holds this tile.
    Blocking(Position),
}

/// Where a vehicle stands after an update.
#[derive(Clone, Copy, PartialEq, Eq, Structural, Debug, PartialOrd)]
pub enum Status {
    EnRoute,
    ReachedDestination,
    HopelesslyLate,
}

/// A vehicle driving from building to building over the roads, holding the
/// tiles it is on and is about to enter. Its reservations run from the most
/// recent (front) to the tile it is on (back).
#[derive(Debug)]
pub struct Vehicle {
    pub pos: Position,
    pub dir: Direction,
    pub color: SpawnerColors,
    pub id: Id,
    pub grid_path: Path,
    pub reserved: VecDeque<Reservation>,
    pub path_index: usize,
    pub path_time_ticks: u32,
    pub elapsed_ticks: u32,
    pub destination: Id,
    pub blocking_tile: Option<Position>,
}

/// A vehicle as plain values.
pub struct VehicleView {
    pub pos: Position,
    pub dir: Direction,
    pub color: SpawnerColors,
    pub id: Id,
    pub path: Option<(Seq<Position>, u32)>,
    pub reserved: Seq<Reservation>,
    pub path_index: usize,
    pub path_time_ticks: u32,
    pub elapsed_ticks: u32,
    pub destination: Id,
    pub blocking_tile: Option<Position>,
}

/// What the grid answers when vehicle `id` asks to hold the tile at `pos`
/// over `[start, end]`: `TileInvalid` off the grid.
pub open spec fn grid_is_reserved(
    g: Seq<Seq<(TileView, TileView)>>,
    pos: Position,
    id: Id,
    start: int,
    end: int,
) -> Result<(), ReservationError> {
    match spec_tile_at(g, pos) {
        None => Err(ReservationError::TileInvalid),
        Some(t) => spec_is_reserved(t, id, start as Tick, end as Tick),
    }
}

/// A road with more than one way out: vehicles do not stop on it.
pub open spec fn is_crossing(g: Seq<Seq<(TileView, TileView)>>, pos: Position) -> bool {
    spec_tile_at(g, pos) matches Some(TileView::Road(road)) && (road.connections.len() as u32) > 1
}

pub open spec fn reserve_error(e: ReservationError, pos: Position) -> ReservePathError {
    match e {
        ReservationError::TileInvalid => ReservePathError::InvalidPath,
        ReservationError::TileReserved => ReservePathError::Blocking(pos),
    }
}

pub open spec fn prepend_plan(
    xs: Seq<Reservation>,
    r: Result<Seq<Reservation>, ReservePathError>,
) -> Result<Seq<Reservation>, ReservePathError> {
    match r {
        Ok(ys) => Ok(xs + ys),
        Err(e) => Err(e),
    }
}

/// The reservations a vehicle `id` plans over the route tiles `ps`, the first
/// one from tick `start`, while holding and planning `held` already: one
/// tile's time per tile over crossings, up to the first tile it can stop on,
/// which it asks for without end; or why it cannot.
pub open spec fn plan(
    g: Seq<Seq<(TileView, TileView)>>,
    id: Id,
    ps: Seq<Position>,
    start: int,
    held: int,
) -> Result<Seq<Reservation>, ReservePathError>
    decreases ps.len(),
{
    if ps.len() == 0 {
        Ok(seq![])
    } else {
        let pos = ps[0];
        let end = start + SPEED_TICKS;
        match grid_is_reserved(g, pos, id, start, end) {
            Err(e) => Err(reserve_error(e, pos)),
            Ok(()) => if is_crossing(g, pos) {
                if held + 1 > RESERVE_AHEAD_MAX {
                    Err(ReservePathError::ReachedMaxLookahead)
                } else {
                    prepend_plan(
                        seq![Reservation { pos, start: start as Tick, end: end as Tick }],
                        plan(g, id, ps.drop_first(), start + SPEED_TICKS, held + 1),
                    )
                }
            } else {
                match grid_is_reserved(g, pos, id, start, Tick::MAX as int) {
                    Ok(()) => Ok(seq![Reservation { pos, start: start as Tick, end: Tick::MAX }]),
                    Err(e) => Err(reserve_error(e, pos)),
                }
            },
        }
    }
}

/// A successful plan covers no more tiles than it was given.
pub proof fn lemma_plan_len(g: Seq<Seq<(TileView, TileView)>>, id: Id, ps: Seq<Position>, start: int, held: int)
    ensures
        plan(g, id, ps, start, held) matches Ok(list) ==> list.len() <= ps.len(),
    decreases ps.len(),
{
    if ps.len() > 0 {
        lemma_plan_len(g, id, ps.drop_first(), start + SPEED_TICKS, held + 1);
    }
}

/// The grid after vehicle `id` lets go of the tiles of `reserved`, in order.
pub open spec fn released_all(
    g: Seq<Seq<(TileView, TileView)>>,
    id: Id,
    reserved: Seq<Reservation>,
) -> Seq<Seq<(TileView, TileView)>>
    decreases reserved.len(),
{
    if reserved.len() == 0 {
        g
    } else {
        let prev = released_all(g, id, reserved.drop_last());
        let pos = reserved.last().pos;
        match spec_tile_at(prev, pos) {
            Some(t) => spec_set_tile(prev, pos, spec_unreserve(t, id)),
            None => prev,
        }
    }
}

/// The grid and reservations after vehicle `id` shortens its endless front
/// reservation to end where the first planned one starts (kept as it was
/// where the tile refuses).
pub open spec fn fixed_front(
    g: Seq<Seq<(TileView, TileView)>>,
    reserved: Seq<Reservation>,
    first_start: Tick,
    id: Id,
    tick: Tick,
) -> (Seq<Seq<(TileView, TileView)>>, Seq<Reservation>) {
    if reserved.len() > 0 && reserved[0].end == Tick::MAX {
        let f = reserved[0];
        match spec_tile_at(g, f.pos) {
            Some(t) => match spec_reserve(t, id, f.pos, tick, f.start, first_start) {
                (Ok(nr), nt) => (spec_set_tile(g, f.pos, nt), reserved.update(0, nr)),
                _ => (g, reserved),
            },
            None => (g, reserved),
        }
    } else {
        (g, reserved)
    }
}

/// The grid and reservations after vehicle `id` takes the planned `list` in
/// order, each granted one becoming the new front (a refused one is skipped).
pub open spec fn committed(
    g: Seq<Seq<(TileView, TileView)>>,
    reserved: Seq<Reservation>,
    list: Seq<Reservation>,
    id: Id,
    tick: Tick,
) -> (Seq<Seq<(TileView, TileView)>>, Seq<Reservation>)
    decreases list.len(),
{
    if list.len() == 0 {
        (g, reserved)
    } else {
        let prev = committed(g, reserved, list.drop_last(), id, tick);
        let res = list.last();
        match spec_tile_at(prev.0, res.pos) {
            Some(t) => match spec_reserve(t, id, res.pos, tick, res.start, res.end) {
                (Ok(nr), nt) => (spec_set_tile(prev.0, res.pos, nt), seq![nr] + prev.1),
                _ => prev,
            },
            None => prev,
        }
    }
}

/// Vehicle `v` after planning at `tick` on grid `g` went through with `list`:
/// the grid and the reservations it holds.
pub open spec fn after_plan(
    v: VehicleView,
    g: Seq<Seq<(TileView, TileView)>>,
    list: Seq<Reservation>,
    tick: Tick,
) -> (Seq<Seq<(TileView, TileView)>>, Seq<Reservation>) {
    let fixed = if list.len() > 0 {
        fixed_front(g, v.reserved, list[0].start, v.id, tick)
    } else {
        (g, v.reserved)
    };
    committed(fixed.0, fixed.1, list, v.id, tick)
}

/// What `try_reserve_path` answers, and the vehicle and grid after it.
pub open spec fn spec_try_reserve(v: VehicleView, g: Seq<Seq<(TileView, TileView)>>, tick: Tick) -> (
    Result<(), ReservePathError>,
    VehicleView,
    Seq<Seq<(TileView, TileView)>>,
) {
    if v.reserved.len() >= RESERVE_AHEAD_MIN {
        (Ok(()), v, g)
    } else {
        match planned(v, g, tick) {
            Err(e) => (Err(e), v, g),
            Ok(list) => {
                let done = after_plan(v, g, list, tick);
                (
                    Ok(()),
                    VehicleView {
                        reserved: done.1,
                        path_index: (v.path_index + list.len()) as usize,
                        ..v
                    },
                    done.0,
                )
            },
        }
    }
}

/// The route tiles still ahead.
pub open spec fn remaining(v: VehicleView) -> Seq<Position> {
    match v.path {
        Some((p, _)) => p.skip(v.path_index as int),
        None => seq![],
    }
}

/// The tick from which the next reservation is planned: after the most
/// recent one, or one tile's time after it started (or after now) when it has
/// no end.
pub open spec fn plan_start(v: VehicleView, tick: Tick) -> int {
    if v.reserved.len() > 0 {
        let head = v.reserved[0];
        if head.end == Tick::MAX {
            (if head.start > tick {
                head.start
            } else {
                tick
            }) + SPEED_TICKS
        } else {
            head.end as int
        }
    } else {
        tick as int
    }
}

/// What planning ahead answers on grid `g` at `tick`.
pub open spec fn planned(v: VehicleView, g: Seq<Seq<(TileView, TileView)>>, tick: Tick) -> Result<
    Seq<Reservation>,
    ReservePathError,
> {
    match v.path {
        None => Err(ReservePathError::InvalidPath),
        Some(_) => plan(g, v.id, remaining(v), plan_start(v, tick), v.reserved.len() as int),
    }
}

/// The route index never passes the route's end, and every tile the vehicle
/// is on or holds lies within the route bounds.
pub open spec fn view_wf(v: VehicleView) -> bool {
    &&& v.path matches Some((p, _)) ==> v.path_index <= p.len()
    &&& in_route_box(v.pos)
    &&& forall|i: int| 0 <= i < v.reserved.len() ==> in_route_box(#[trigger] v.reserved[i].pos)
}

/// Every reservation starts, and ends unless it has no end, by `TICK_LIMIT`.
pub open spec fn ticks_fit(v: VehicleView) -> bool {
    forall|i: int|
        0 <= i < v.reserved.len() ==> (#[trigger] v.reserved[i]).start <= TICK_LIMIT && (v.reserved[i].end
            == Tick::MAX || v.reserved[i].end <= TICK_LIMIT)
}

/// The vehicle after looking for a new route on grid `g` with `buildings`:
/// on success the route, its expected time and a restart at its first tile.
pub open spec fn spec_find_route(
    v: VehicleView,
    g: Seq<Seq<(TileView, TileView)>>,
    buildings: Map<Id, Building>,
) -> VehicleView {
    let found = find_path_in(g, buildings, (v.pos, v.dir), v.destination);
    match found {
        Some((_, c)) => VehicleView {
            path: found,
            path_time_ticks: ((c + 1) * SPEED_TICKS) as u32,
            path_index: 0,
            ..v
        },
        None => VehicleView { path: None, ..v },
    }
}

/// The vehicle and grid after `reserve_next_pos`: a refused plan looks for a
/// new route where the route is at fault, and notes the tile in the way where
/// another vehicle blocks.
pub open spec fn spec_reserve_next(
    v: VehicleView,
    g: Seq<Seq<(TileView, TileView)>>,
    buildings: Map<Id, Building>,
    tick: Tick,
) -> (VehicleView, Seq<Seq<(TileView, TileView)>>) {
    let (r, v1, g1) = spec_try_reserve(v, g, tick);
    match r {
        Ok(()) => (v1, g1),
        Err(ReservePathError::InvalidPath) => (spec_find_route(v1, g1, buildings), g1),
        Err(ReservePathError::Blocking(p)) => (VehicleView { blocking_tile: Some(p), ..v1 }, g1),
        Err(ReservePathError::ReachedMaxLookahead) => (v1, g1),
    }
}

/// A vehicle standing on its destination has arrived; otherwise it plans on.
pub open spec fn spec_update_position(
    v: VehicleView,
    g: Seq<Seq<(TileView, TileView)>>,
    buildings: Map<Id, Building>,
    tick: Tick,
) -> (Status, VehicleView, Seq<Seq<(TileView, TileView)>>) {
    if spec_tile_at(g, v.pos) matches Some(t) && tile_building_id(t) == Some(v.destination) {
        (Status::ReachedDestination, v, g)
    } else {
        let (v1, g1) = spec_reserve_next(v, g, buildings, tick);
        (Status::EnRoute, v1, g1)
    }
}

/// The vehicle moved onto the tile of its last reservation, facing from there
/// towards the one after it (or from where it stood, when there is none).
pub open spec fn spec_update_pos_dir(v: VehicleView) -> VehicleView {
    let r = v.reserved;
    if r.len() == 0 {
        v
    } else {
        let res = r.last();
        let dir = if r.len() >= 2 {
            spec_difference(r[r.len() - 2].pos, res.pos)
        } else {
            spec_difference(res.pos, v.pos)
        };
        VehicleView { pos: res.pos, dir, ..v }
    }
}

/// Tiles `a` and `b` are at most one step apart on every axis.
pub open spec fn neighbouring(a: Position, b: Position) -> bool {
    -1 <= a.x - b.x <= 1 && -1 <= a.y - b.y <= 1 && -1 <= a.z - b.z <= 1
}

/// Law: a vehicle that moves onto the tile of its last reservation faces
/// along its route: one step along its new direction leads from its new tile
/// to the next tile it holds, or, when it holds no other, from the tile it
/// left to the tile it is on (for tiles that are neighbours, as on a route).
pub proof fn lemma_moved_vehicle_faces_route(v: VehicleView)
    requires
        v.reserved.len() >= 1,
        v.reserved.len() >= 2 ==> neighbouring(v.reserved[v.reserved.len() - 2].pos, v.reserved.last().pos),
        v.reserved.len() == 1 ==> neighbouring(v.reserved.last().pos, v.pos),
    ensures
        spec_update_pos_dir(v).pos == v.reserved.last().pos,
        v.reserved.len() >= 2 ==> super::position::plus(spec_update_pos_dir(v).pos, spec_update_pos_dir(v).dir)
            == v.reserved[v.reserved.len() - 2].pos,
        v.reserved.len() == 1 ==> super::position::plus(v.pos, spec_update_pos_dir(v).dir) == spec_update_pos_dir(
            v,
        ).pos,
{
}

/// One tick of a vehicle's life: count it, give up when hopelessly late,
/// wait while the tile it is on is still its own, and otherwise move on to
/// the next held tile and plan ahead.
pub open spec fn spec_update(
    v: VehicleView,
    g: Seq<Seq<(TileView, TileView)>>,
    buildings: Map<Id, Building>,
    tick: Tick,
    late: bool,
) -> (Status, VehicleView, Seq<Seq<(TileView, TileView)>>) {
    let v1 = VehicleView { elapsed_ticks: (v.elapsed_ticks + 1) as u32, ..v };
    if late {
        (Status::HopelesslyLate, v1, g)
    } else if v1.reserved.len() > 0 && v1.reserved.last().end > tick && v1.reserved.last().end
        != Tick::MAX {
        (Status::EnRoute, v1, g)
    } else if v1.reserved.len() > 0 && v1.reserved.last().end <= tick {
        let v2 = spec_update_pos_dir(VehicleView { reserved: v1.reserved.drop_last(), ..v1 });
        spec_update_position(v2, g, buildings, tick)
    } else {
        spec_update_position(v1, g, buildings, tick)
    }
}

/// A vehicle `id` just placed on `start.0` facing `start.1`, bound for
/// `destination`, holding only `res` and without a route yet.
pub open spec fn fresh_vehicle(id: Id, start: (Position, Direction), destination: Id, res: Reservation) -> VehicleView {
    VehicleView {
        pos: start.0,
        dir: start.1,
        color: SpawnerColors::Blue,
        id,
        path: None,
        reserved: seq![res],
        path_index: 0,
        path_time_ticks: 0,
        elapsed_ticks: 0,
        destination,
        blocking_tile: None,
    }
}

/// Whether `p` is in the box of route positions (see `in_route_box`).
fn in_box(p: Position) -> (r: bool)
    ensures
        r == in_route_box(p),
{
    0 <= p.x && p.x < 0x1000 && 0 <= p.y && p.y < 0x1000 && 0 <= p.z && p.z <= 1
}

impl Vehicle {
    pub open spec fn view(&self) -> VehicleView {
        VehicleView {
            pos: self.pos,
            dir: self.dir,
            color: self.color,
            id: self.id,
            path: path_view(self.grid_path),
            reserved: self.reserved@,
            path_index: self.path_index,
            path_time_ticks: self.path_time_ticks,
            elapsed_ticks: self.elapsed_ticks,
            destination: self.destination,
            blocking_tile: self.blocking_tile,
        }
    }

    pub open spec fn wf(&self) -> bool {
        view_wf(self@)
    }

    /// Whether the vehicle is well formed (see `view_wf`).
    pub fn check_wf(&self) -> (r: bool)
        ensures
            r == self.wf(),
    {
        match &self.grid_path {
            Some(path) => {
                if self.path_index > path.0.len() {
                    return false;
                }
            },
            None => {},
        }
        if !in_box(self.pos) {
            return false;
        }
        let mut i: usize = 0;
        while i < self.reserved.len()
            invariant
                0 <= i <= self.reserved@.len(),
                forall|j: int| 0 <= j < i ==> in_route_box(#[trigger] self@.reserved[j].pos),
            decreases self.reserved@.len() - i,
        {
            if !in_box(self.reserved[i].pos) {
                assert(!in_route_box(self@.reserved[i as int].pos));
                return false;
            }
            i = i + 1;
        }
        true
    }

    /// Looks for a route from where the vehicle stands to its destination.
    fn find_path(&mut self, grid: &Grid) -> (r: bool)
        requires
            old(self).wf(),
            grid.within_route_bounds(),
            grid.buildings_placed(),
        ensures
            final(self).wf(),
            final(self)@ == spec_find_route(old(self)@, grid@, grid.buildings@),
            r == final(self).grid_path is Some,
            final(self).reserved == old(self).reserved,
    {
        proof {
            lemma_request_fits(*grid, (self.pos, self.dir), self.destination);
        }
        self.grid_path = grid.find_path((self.pos, self.dir), &self.destination);
        match &self.grid_path {
            Some(path) => {
                self.path_time_ticks = (path.1 + 1) * SPEED_TICKS;
                self.path_index = 0;
            },
            None => {},
        }
        self.grid_path.is_some()
    }

    /// Plans ahead; where the route is at fault a new one is looked for, and
    /// where another vehicle blocks, its tile is noted.
    pub fn reserve_next_pos(&mut self, grid: &mut Grid, tick: Tick)
        requires
            old(self).wf(),
            old(grid).within_route_bounds(),
            old(grid).buildings_placed(),
            old(self).reserved@.len() < RESERVE_AHEAD_MIN ==> ticks_fit(old(self)@) && tick <= TICK_LIMIT,
        ensures
            final(self).wf(),
            final(grid).within_route_bounds(),
            final(grid).buildings == old(grid).buildings,
            old(grid).wf() ==> final(grid).wf(),
            (final(self)@, final(grid)@) == spec_reserve_next(old(self)@, old(grid)@, old(grid).buildings@, tick),
    {
        match self.try_reserve_path(grid, tick) {
            Ok(()) => {},
            Err(ReservePathError::InvalidPath) => {
                self.find_path(grid);
            },
            Err(ReservePathError::Blocking(blocking_pos)) => {
                self.blocking_tile = Some(blocking_pos);
            },
            Err(ReservePathError::ReachedMaxLookahead) => {},
        }
    }

    /// Counts one more tick of the trip.
    pub fn update_trip(&mut self)
        requires
            old(self).elapsed_ticks < u32::MAX,
        ensures
            final(self)@ == (VehicleView { elapsed_ticks: (old(self).elapsed_ticks + 1) as u32, ..old(self)@ }),
            final(self).reserved == old(self).reserved,
            final(self).grid_path == old(self).grid_path,
    {
        self.elapsed_ticks = self.elapsed_ticks + 1;
    }

    /// Arrived when standing on the destination; otherwise plans ahead.
    pub fn update_position(&mut self, grid: &mut Grid, tick: Tick) -> (r: Status)
        requires
            old(self).wf(),
            old(grid).within_route_bounds(),
            old(grid).buildings_placed(),
            old(self).reserved@.len() < RESERVE_AHEAD_MIN ==> ticks_fit(old(self)@) && tick <= TICK_LIMIT,
        ensures
            final(self).wf(),
            final(grid).within_route_bounds(),
            final(grid).buildings == old(grid).buildings,
            old(grid).wf() ==> final(grid).wf(),
            (r, final(self)@, final(grid)@) == spec_update_position(old(self)@, old(grid)@, old(grid).buildings@, tick),
    {
        match grid.get_tile(&self.pos) {
            Some(tile) => {
                match tile.get_building_id() {
                    Some(b) => {
                        if b == self.destination {
                            return Status::ReachedDestination;
                        }
                    },
                    None => {},
                }
            },
            None => {},
        }
        self.reserve_next_pos(grid, tick);
        Status::EnRoute
    }

    /// Moves onto the tile of the last reservation, facing the one after it.
    fn update_pos_dir(&mut self)
        requires
            old(self).wf(),
        ensures
            final(self).wf(),
            final(self)@ == spec_update_pos_dir(old(self)@),
            final(self).reserved == old(self).reserved,
            final(self).grid_path == old(self).grid_path,
    {
        let n = self.reserved.len();
        if n > 0 {
            let res = self.reserved[n - 1];
            if n >= 2 {
                let res_next = self.reserved[n - 2];
                self.dir = res_next.pos - res.pos;
            } else {
                self.dir = res.pos - self.pos;
            }
            self.pos = res.pos;
        }
    }

    /// A vehicle `id` standing on `start.0`, facing `start.1`, bound for
    /// building `destination`: it holds its tile from `tick` on without end,
    /// and looks for its route.
    pub fn new(id: Id, start: (Position, Direction), destination: Id, grid: &mut Grid, tick: Tick) -> (r:
        Result<Self, ReservationError>)
        requires
            old(grid).within_route_bounds(),
            old(grid).buildings_placed(),
        ensures
            final(grid).within_route_bounds(),
            final(grid).buildings == old(grid).buildings,
            old(grid).wf() ==> final(grid).wf(),
            match spec_tile_at(old(grid)@, start.0) {
                None => r == Err::<Vehicle, ReservationError>(ReservationError::TileInvalid) && *final(grid)
                    == *old(grid),
                Some(t) => match spec_reserve(t, id, start.0, tick, tick, Tick::MAX) {
                    (Err(e), _) => r == Err::<Vehicle, ReservationError>(e) && final(grid)@ == old(grid)@,
                    (Ok(res), nt) => {
                        &&& final(grid)@ == spec_set_tile(old(grid)@, start.0, nt)
                        &&& r matches Ok(v) && v.wf() && v@ == spec_find_route(
                            fresh_vehicle(id, start, destination, res),
                            final(grid)@,
                            old(grid).buildings@,
                        )
                    },
                },
            },
    {
        let ghost g0 = grid@;
        let reservation = match grid.reserve(&start.0, id, tick, tick, Tick::MAX) {
            Ok(res) => res,
            Err(e) => {
                proof {
                    if spec_tile_at(g0, start.0) is Some {
                        lemma_set_tile_same(g0, start.0);
                    }
                }
                return Err(e);
            },
        };
        proof {
            lemma_tile_in_box(g0, start.0);
            lemma_set_tile_bounds(g0, start.0, grid@[start.0.y as int][start.0.x as int].0);
            lemma_set_tile_bounds(g0, start.0, grid@[start.0.y as int][start.0.x as int].1);
        }
        let mut reserved: VecDeque<Reservation> = VecDeque::new();
        reserved.push_back(reservation);
        let mut vehicle = Self {
            pos: start.0,
            dir: start.1,
            color: SpawnerColors::Blue,
            id,
            grid_path: None,
            path_time_ticks: 0,
            path_index: 0,
            destination,
            blocking_tile: None,
            elapsed_ticks: 0,
            reserved,
        };
        assert(vehicle.reserved@ =~= seq![reservation]);
        vehicle.find_path(grid);
        Ok(vehicle)
    }

    /// Whether the vehicle can take one more tick: its trip counter has room
    /// and its reservations fit (see `ticks_fit`).
    pub fn ready(&self) -> (r: bool)
        ensures
            r == (self.elapsed_ticks < u32::MAX && ticks_fit(self@)),
    {
        if self.elapsed_ticks == u32::MAX {
            return false;
        }
        let mut i: usize = 0;
        while i < self.reserved.len()
            invariant
                0 <= i <= self.reserved@.len(),
                forall|j: int|
                    0 <= j < i ==> (#[trigger] self.reserved@[j]).start <= TICK_LIMIT && (self.reserved@[j].end
                        == Tick::MAX || self.reserved@[j].end <= TICK_LIMIT),
            decreases self.reserved@.len() - i,
        {
            let res = self.reserved[i];
            if res.start > TICK_LIMIT || (res.end != Tick::MAX && res.end > TICK_LIMIT) {
                assert(self@.reserved[i as int] == res);
                return false;
            }
            i = i + 1;
        }
        true
    }

    /// Lets go of every tile this vehicle holds.
    pub fn cleanup(&self, grid: &mut Grid)
        ensures
            final(grid)@ == released_all(old(grid)@, self.id, self.reserved@),
            final(grid).buildings == old(grid).buildings,
            old(grid).within_route_bounds() ==> final(grid).within_route_bounds(),
            old(grid).wf() ==> final(grid).wf(),
    {
        let mut i: usize = 0;
        while i < self.reserved.len()
            invariant
                0 <= i <= self.reserved@.len(),
                grid@ == released_all(old(grid)@, self.id, self.reserved@.take(i as int)),
                grid.buildings == old(grid).buildings,
                old(grid).within_route_bounds() ==> grid.within_route_bounds(),
                old(grid).wf() ==> grid.wf(),
            decreases self.reserved@.len() - i,
        {
            let res = self.reserved[i];
            let ghost before = grid@;
            assert(self.reserved@.take(i + 1).drop_last() =~= self.reserved@.take(i as int));
            match grid.get_tile_mut(&res.pos) {
                Some(tile) => {
                    tile.unreserve(self.id);
                },
                None => {},
            }
            proof {
                if spec_tile_at(before, res.pos) is Some {
                    if old(grid).within_route_bounds() {
                        lemma_set_tile_bounds(before, res.pos, grid@[res.pos.y as int][res.pos.x as int].0);
                        lemma_set_tile_bounds(before, res.pos, grid@[res.pos.y as int][res.pos.x as int].1);
                    }
                }
            }
            i = i + 1;
        }
        assert(self.reserved@.take(self.reserved@.len() as int) =~= self.reserved@);
    }

    /// How many pixels the vehicle has moved into its next tile: counted from
    /// one tile's time before its last reservation ends; nothing while it
    /// holds a single tile or waits without end.
    pub fn lead_pos(&self, tick: Tick) -> (r: i32)
        requires
            self.reserved@.len() > 1 && self.reserved@.last().end != Tick::MAX ==> {
                let e = self.reserved@.last().end;
                &&& e >= SPEED_TICKS
                &&& tick >= e - SPEED_TICKS
                &&& i32::MIN <= ((tick - (e - SPEED_TICKS)) as i32) * SPEED_PIXELS <= i32::MAX
            },
        ensures
            r == (if self.reserved@.len() <= 1 || self.reserved@.last().end == Tick::MAX {
                0
            } else {
                ((tick - (self.reserved@.last().end - SPEED_TICKS)) as i32) * SPEED_PIXELS
            }),
    {
        let n = self.reserved.len();
        if n <= 1 {
            return 0;
        }
        let reserve = self.reserved[n - 1];
        if reserve.end == Tick::MAX {
            0
        } else {
            ((tick - (reserve.end - SPEED_TICKS)) as i32) * SPEED_PIXELS
        }
    }

    /// One tick of the vehicle's life. `is_hopelessly_late` judges the trip
    /// once this tick is counted; a vehicle that is not late waits while the
    /// tile it is on is still its own, then moves on to its next held tile
    /// and plans ahead.
    pub fn update<F: Fn(&Vehicle) -> bool>(
        &mut self,
        grid: &mut Grid,
        tick: Tick,
        is_hopelessly_late: F,
    ) -> (r: Status)
        requires
            old(self).wf(),
            old(grid).within_route_bounds(),
            old(grid).buildings_placed(),
            old(self).elapsed_ticks < u32::MAX,
            ticks_fit(old(self)@),
            tick <= TICK_LIMIT,
            forall|v: &Vehicle| #[trigger] is_hopelessly_late.requires((v,)),
        ensures
            final(self).wf(),
            final(grid).within_route_bounds(),
            final(grid).buildings == old(grid).buildings,
            old(grid).wf() ==> final(grid).wf(),
            ({
                let mid = Vehicle { elapsed_ticks: (old(self).elapsed_ticks + 1) as u32, ..*old(self) };
                ||| is_hopelessly_late.ensures((&mid,), true) && (r, final(self)@, final(grid)@)
                    == spec_update(old(self)@, old(grid)@, old(grid).buildings@, tick, true)
                ||| is_hopelessly_late.ensures((&mid,), false) && (r, final(self)@, final(grid)@)
                    == spec_update(old(self)@, old(grid)@, old(grid).buildings@, tick, false)
            }),
    {
        self.update_trip();
        let late = is_hopelessly_late(&*self);
        if late {
            return Status::HopelesslyLate;
        }
        let n = self.reserved.len();
        if n > 0 {
            let back = self.reserved[n - 1];
            if back.end > tick && back.end != Tick::MAX {
                return Status::EnRoute;
            }
            if back.end <= tick {
                self.reserved.pop_back();
                self.update_pos_dir();
            }
        }
        self.update_position(grid, tick)
    }

    /// Plans the reservations ahead along the route, checking each tile against the grid.
    fn plan_reservations(&self, grid: &Grid, tick: Tick) -> (r: Result<Vec<Reservation>, ReservePathError>)
        requires
            self.wf(),
            ticks_fit(self@),
            tick <= TICK_LIMIT,
            self.reserved@.len() < RESERVE_AHEAD_MIN,
        ensures
            match r {
                Ok(v) => planned(self@, grid@, tick) == Ok::<Seq<Reservation>, ReservePathError>(v@),
                Err(e) => planned(self@, grid@, tick) == Err::<Seq<Reservation>, ReservePathError>(e),
            },
    {
        let mut start: Tick = if self.reserved.len() > 0 {
            let head = self.reserved[0];
            if head.end == Tick::MAX {
                (if head.start > tick {
                    head.start
                } else {
                    tick
                }) + SPEED_TICKS
            } else {
                head.end
            }
        } else {
            tick
        };
        let path = match &self.grid_path {
            Some(p) => &p.0,
            None => {
                return Err(ReservePathError::InvalidPath);
            },
        };
        let ghost g = grid@;
        let ghost start0 = start as int;
        let ghost base = self.reserved@.len() as int;
        let mut to_reserve: Vec<Reservation> = Vec::new();
        let mut i: usize = self.path_index;
        while i < path.len()
            invariant
                self.grid_path matches Some((p, _)) && p@ == path@,
                g == grid@,
                base == self.reserved@.len(),
                0 <= base < RESERVE_AHEAD_MIN,
                self.path_index <= i <= path.len(),
                to_reserve@.len() == i - self.path_index,
                to_reserve@.len() + base <= RESERVE_AHEAD_MAX,
                start == start0 + SPEED_TICKS * to_reserve@.len(),
                start0 <= TICK_LIMIT + SPEED_TICKS,
                start0 == plan_start(self@, tick),
                plan(g, self.id, path@.skip(self.path_index as int), start0, base) == prepend_plan(
                    to_reserve@,
                    plan(g, self.id, path@.skip(i as int), start as int, base + to_reserve@.len()),
                ),
            decreases path.len() - i,
        {
            let pos = path[i];
            let end = start + SPEED_TICKS;
            let ghost ps = path@.skip(i as int);
            assert(ps[0] == pos);
            assert(ps.drop_first() =~= path@.skip(i + 1));
            match grid.is_reserved(&pos, self.id, start, end) {
                Ok(()) => {},
                Err(e) => {
                    return Err(
                        match e {
                            ReservationError::TileInvalid => ReservePathError::InvalidPath,
                            ReservationError::TileReserved => ReservePathError::Blocking(pos),
                        },
                    );
                },
            }
            let crossing = match grid.get_tile(&pos) {
                Some(Tile::Road(road)) => road.connection_count() > 1,
                _ => false,
            };
            if crossing {
                if self.reserved.len() + to_reserve.len() + 1 > RESERVE_AHEAD_MAX {
                    return Err(ReservePathError::ReachedMaxLookahead);
                }
                let ghost before = to_reserve@;
                to_reserve.push(Reservation::new(pos, start, end));
                assert(before + (seq![Reservation { pos, start, end }] + ({
                    match plan(g, self.id, path@.skip(i + 1), start + SPEED_TICKS, base + before.len() + 1) {
                        Ok(ys) => ys,
                        Err(_) => seq![],
                    }
                })) =~= to_reserve@ + ({
                    match plan(g, self.id, path@.skip(i + 1), start + SPEED_TICKS, base + before.len() + 1) {
                        Ok(ys) => ys,
                        Err(_) => seq![],
                    }
                }));
                start = start + SPEED_TICKS;
                i = i + 1;
            } else {
                match grid.is_reserved(&pos, self.id, start, Tick::MAX) {
                    Ok(()) => {
                        let ghost before = to_reserve@;
                        to_reserve.push(Reservation::new(pos, start, Tick::MAX));
                        assert(before + seq![Reservation { pos, start, end: Tick::MAX }] =~= to_reserve@);
                        return Ok(to_reserve);
                    },
                    Err(e) => {
                        return Err(
                            match e {
                                ReservationError::TileInvalid => ReservePathError::InvalidPath,
                                ReservationError::TileReserved => ReservePathError::Blocking(pos),
                            },
                        );
                    },
                }
            }
        }
        assert(path@.skip(i as int) =~= Seq::<Position>::empty());
        assert(to_reserve@ + Seq::<Reservation>::empty() =~= to_reserve@);
        Ok(to_reserve)
    }

    /// Plans ahead once fewer than `RESERVE_AHEAD_MIN` tiles are held, and
    /// takes what the plan holds: the endless front reservation is cut to
    /// end where the plan starts, and each planned tile is reserved in turn.
    fn try_reserve_path(&mut self, grid: &mut Grid, tick: Tick) -> (r: Result<(), ReservePathError>)
        requires
            old(self).wf(),
            old(grid).within_route_bounds(),
            old(self).reserved@.len() < RESERVE_AHEAD_MIN ==> ticks_fit(old(self)@) && tick <= TICK_LIMIT,
        ensures
            final(self).wf(),
            final(grid).within_route_bounds(),
            final(grid).buildings == old(grid).buildings,
            old(grid).wf() ==> final(grid).wf(),
            (r, final(self)@, final(grid)@) == spec_try_reserve(old(self)@, old(grid)@, tick),
    {
        if self.reserved.len() >= RESERVE_AHEAD_MIN {
            return Ok(());
        }
        let to_reserve = match self.plan_reservations(grid, tick) {
            Ok(v) => v,
            Err(e) => {
                return Err(e);
            },
        };
        let ghost g0 = grid@;
        let ghost v0 = *self;
        proof {
            lemma_plan_len(g0, self.id, remaining(self@), plan_start(self@, tick), self.reserved@.len() as int);
        }
        if to_reserve.len() > 0 && self.reserved.len() > 0 {
            let front = self.reserved[0];
            if front.end == Tick::MAX {
                match grid.reserve(&front.pos, self.id, tick, front.start, to_reserve[0].start) {
                    Ok(new_res) => {
                        proof {
                            lemma_tile_in_box(g0, front.pos);
                            lemma_set_tile_bounds(g0, front.pos, grid@[front.pos.y as int][front.pos.x as int].0);
                            lemma_set_tile_bounds(g0, front.pos, grid@[front.pos.y as int][front.pos.x as int].1);
                        }
                        self.reserved.pop_front();
                        self.reserved.push_front(new_res);
                        assert(self.reserved@ =~= v0.reserved@.update(0, new_res));
                    },
                    Err(_) => {
                        proof {
                            if spec_tile_at(g0, front.pos) is Some {
                                lemma_set_tile_same(g0, front.pos);
                            }
                        }
                    },
                }
            }
        }
        let ghost fixed = (grid@, self.reserved@);
        assert(fixed == (if to_reserve@.len() > 0 {
            fixed_front(g0, v0.reserved@, to_reserve@[0].start, v0.id, tick)
        } else {
            (g0, v0.reserved@)
        }));
        let mut k: usize = 0;
        while k < to_reserve.len()
            invariant
                0 <= k <= to_reserve@.len(),
                (grid@, self.reserved@) == committed(fixed.0, fixed.1, to_reserve@.take(k as int), v0.id, tick),
                self.path_index == v0.path_index + k,
                v0.path_index + to_reserve@.len() <= (match v0.grid_path {
                    Some((p, _)) => p.len() as int,
                    None => 0,
                }),
                *self == (Vehicle { reserved: self.reserved, path_index: self.path_index, ..v0 }),
                grid.within_route_bounds(),
                grid.buildings == old(grid).buildings,
                old(grid).wf() ==> grid.wf(),
                forall|i: int| 0 <= i < self.reserved@.len() ==> in_route_box(#[trigger] self.reserved@[i].pos),
            decreases to_reserve.len() - k,
        {
            let res = to_reserve[k];
            self.path_index = self.path_index + 1;
            let ghost before = (grid@, self.reserved@);
            assert(to_reserve@.take(k + 1).drop_last() =~= to_reserve@.take(k as int));
            match grid.reserve(&res.pos, self.id, tick, res.start, res.end) {
                Ok(nr) => {
                    proof {
                        lemma_tile_in_box(before.0, res.pos);
                        lemma_set_tile_bounds(before.0, res.pos, grid@[0][0].0);
                    }
                    self.reserved.push_front(nr);
                    assert(self.reserved@ =~= seq![nr] + before.1);
                },
                Err(_) => {
                    proof {
                        if spec_tile_at(before.0, res.pos) is Some {
                            lemma_set_tile_same(before.0, res.pos);
                        }
                    }
                },
            }
            k = k + 1;
        }
        assert(to_reserve@.take(to_reserve@.len() as int) =~= to_reserve@);
        Ok(())
    }
}

} // verus!
