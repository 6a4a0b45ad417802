use vstd::prelude::*;

pub mod laws;

use crate::hash_map_id::Id;
use super::building::{placed, Building};
use super::direction::{spec_square, Direction};
use super::grid::{
    lemma_set_tile_at, lemma_set_tile_bounds, lemma_set_tile_same, spec_set_tile, spec_tile_at, Grid,
};
use super::position::{
    abs, fits_i16, line_seq, offset, offset_fits, plus, plus_fits, spec_corner_pos, spec_direction_to,
    Position,
};
use super::tile::road::{connected, disconnected, swap_removed, Road};
use super::tile::{plain_road, RoadView, Tile, TileView};
use super::GameMap;

verus! {

/// Why a build could not be carried out.
#[derive(Debug, Copy, Clone, PartialEq, Eq, Structural)]
pub enum BuildError {
    InvalidTile,
    OccupiedTile,
}

pub type BuildResult = Result<(), BuildError>;

/// Whether the tile at `p` of grid `g` is free to build on.
pub open spec fn pos_clear(g: Seq<Seq<(TileView, TileView)>>, p: Position) -> BuildResult {
    match spec_tile_at(g, p) {
        None => Err(BuildError::InvalidTile),
        Some(TileView::Empty) => Ok(()),
        Some(_) => Err(BuildError::OccupiedTile),
    }
}

/// `pos` moved by `(x, y)` on its layer.
pub open spec fn shifted(pos: Position, x: int, y: int) -> Position {
    Position { x: (pos.x + x) as i16, y: (pos.y + y) as i16, z: pos.z }
}

/// The first answer other than `Ok` over the tiles of column `x` of an area,
/// rows `y` to `sy - 1`.
pub open spec fn column_clear(g: Seq<Seq<(TileView, TileView)>>, pos: Position, x: int, sy: int, y: int) -> BuildResult
    decreases sy - y,
{
    if y >= sy {
        Ok(())
    } else {
        match pos_clear(g, shifted(pos, x, y)) {
            Ok(()) => column_clear(g, pos, x, sy, y + 1),
            Err(e) => Err(e),
        }
    }
}

/// The first answer other than `Ok` over columns `x` to `sx - 1` of an area
/// of `sx` by `sy` tiles at `pos`, column by column.
pub open spec fn area_clear_from(g: Seq<Seq<(TileView, TileView)>>, pos: Position, sx: int, sy: int, x: int) -> BuildResult
    decreases sx - x,
{
    if x >= sx {
        Ok(())
    } else {
        match column_clear(g, pos, x, sy, 0) {
            Ok(()) => area_clear_from(g, pos, sx, sy, x + 1),
            Err(e) => Err(e),
        }
    }
}

/// Whether the area of `size.0` by `size.1` tiles at `pos` is free to build on.
pub open spec fn area_clear(g: Seq<Seq<(TileView, TileView)>>, pos: Position, size: (i8, i8)) -> BuildResult {
    area_clear_from(g, pos, size.0 as int, size.1 as int, 0)
}

/// The tiles of the area stay inside the `i16` range.
pub open spec fn area_fits_i16(pos: Position, size: (i8, i8)) -> bool {
    fits_i16(pos.x + size.0) && fits_i16(pos.y + size.1)
}

/// Building a road towards `dir` on tile `t`: an empty tile becomes a road
/// with that connection (none for `NONE`) and station; a road gains the
/// connection and, when one is given, the station; anything else is in the way.
pub open spec fn road_on_tile(t: TileView, dir: Direction, station: Option<Id>) -> Result<TileView, BuildError> {
    match t {
        TileView::Empty => Ok(
            plain_road(
                if dir != Direction::none() {
                    seq![dir]
                } else {
                    seq![]
                },
                station,
            ),
        ),
        TileView::Road(r) => Ok(
            TileView::Road(
                RoadView {
                    connections: connected(r.connections, dir),
                    station: if station is Some {
                        station
                    } else {
                        r.station
                    },
                    ..r
                },
            ),
        ),
        _ => Err(BuildError::OccupiedTile),
    }
}

/// A road view lists no direction twice and never `NONE`.
pub open spec fn road_view_wf(r: RoadView) -> bool {
    r.connections.no_duplicates() && !r.connections.contains(Direction::none())
}

/// What building road `a` answers on grid `g`, the grid after it, and what
/// the action remembers for its undo.
pub open spec fn spec_build_road(g: Seq<Seq<(TileView, TileView)>>, a: BuildRoad) -> (
    BuildResult,
    Seq<Seq<(TileView, TileView)>>,
    BuildRoad,
) {
    match spec_tile_at(g, a.pos) {
        None => (Err(BuildError::InvalidTile), g, a),
        Some(t) => match road_on_tile(t, a.dir, a.station) {
            Ok(nt) => (
                Ok(()),
                spec_set_tile(g, a.pos, nt),
                match t {
                    TileView::Road(r) => BuildRoad {
                        was_empty: false,
                        was_already: r.connections.contains(a.dir),
                        ..a
                    },
                    _ => BuildRoad { was_empty: true, ..a },
                },
            ),
            Err(e) => (Err(e), g, a),
        },
    }
}

/// What undoing road `a` answers on grid `g`, and the grid after it: a
/// road built on empty ground is removed, a connection it added is taken off.
pub open spec fn spec_unbuild_road(g: Seq<Seq<(TileView, TileView)>>, a: BuildRoad) -> (
    BuildResult,
    Seq<Seq<(TileView, TileView)>>,
) {
    match spec_tile_at(g, a.pos) {
        None => (Err(BuildError::InvalidTile), g),
        Some(t) => if a.was_empty {
            (Ok(()), spec_set_tile(g, a.pos, TileView::Empty))
        } else {
            match t {
                TileView::Road(r) => (
                    Ok(()),
                    if !a.was_already {
                        spec_set_tile(
                            g,
                            a.pos,
                            TileView::Road(RoadView { connections: disconnected(r.connections, a.dir), ..r }),
                        )
                    } else {
                        g
                    },
                ),
                _ => (Err(BuildError::InvalidTile), g),
            }
        },
    }
}

/// Setting a tile twice keeps the second.
proof fn lemma_set_tile_twice(g: Seq<Seq<(TileView, TileView)>>, pos: Position, t1: TileView, t2: TileView)
    requires
        spec_tile_at(g, pos) is Some,
    ensures
        spec_set_tile(spec_set_tile(g, pos, t1), pos, t2) == spec_set_tile(g, pos, t2),
{
    let a = spec_set_tile(spec_set_tile(g, pos, t1), pos, t2);
    let b = spec_set_tile(g, pos, t2);
    assert(a[pos.y as int] =~= b[pos.y as int]);
    assert(a =~= b);
}

/// Law: a road that was built can be undone, and the undo gives back the
/// grid as it was, on ground that was empty or a well-formed road, unless the
/// build gave an existing road another station.
pub proof fn lemma_build_road_undo(g: Seq<Seq<(TileView, TileView)>>, a: BuildRoad)
    requires
        spec_build_road(g, a).0 is Ok,
        spec_tile_at(g, a.pos) matches Some(TileView::Road(r)) ==> road_view_wf(r) && (a.station is None
            || a.station == r.station),
    ensures
        spec_unbuild_road(spec_build_road(g, a).1, spec_build_road(g, a).2) == (Ok::<(), BuildError>(()), g),
{
    let t = spec_tile_at(g, a.pos)->0;
    let nt = road_on_tile(t, a.dir, a.station)->Ok_0;
    let g1 = spec_build_road(g, a).1;
    lemma_set_tile_at(g, a.pos, nt, a.pos);
    lemma_set_tile_twice(g, a.pos, nt, t);
    lemma_set_tile_same(g, a.pos);
    if let TileView::Road(r) = t {
        let s = r.connections;
        if a.dir != Direction::none() && !s.contains(a.dir) {
            let s2 = s.push(a.dir);
            assert(s2[s.len() as int] == a.dir);
            assert(s2.contains(a.dir));
            s2.index_of_first_ensures(a.dir);
            assert forall|j: int| 0 <= j < s.len() implies s2[j] != a.dir by {
                assert(s.contains(s[j]));
            }
            assert(s2.index_of(a.dir) == s.len()) by {
                let k = s2.index_of(a.dir);
                assert(s2[k] == a.dir);
            }
            assert(swap_removed(s2, s.len() as int) =~= s);
            let r2 = RoadView { connections: s, ..r };
            assert(r2 == r);
        } else {
            assert(connected(s, a.dir) == s);
            let r2 = RoadView { connections: s, station: if a.station is Some { a.station } else { r.station }, ..r };
            assert(r2 == r);
            if !s.contains(a.dir) {
                assert(disconnected(s, a.dir) == s);
            }
            lemma_set_tile_same(g, a.pos);
        }
    }
}

/// A road to build (towards `dir`, on `pos`, for `station` when given), and
/// what it found there, for undoing it.
#[derive(Clone, Copy, PartialEq, Eq, Structural, Debug)]
pub struct BuildRoad {
    pub pos: Position,
    pub dir: Direction,
    pub was_empty: bool,
    pub was_already: bool,
    pub station: Option<Id>,
}

impl BuildRoad {
    pub fn new(pos: Position, dir: Direction) -> (r: Self)
        ensures
            r == (BuildRoad { pos, dir, was_empty: false, was_already: false, station: None }),
    {
        Self { pos, dir, was_empty: false, was_already: false, station: None }
    }

    pub fn new_station(pos: Position, dir: Direction, station: Option<Id>) -> (r: Self)
        ensures
            r == (BuildRoad { pos, dir, was_empty: false, was_already: false, station }),
    {
        Self { pos, dir, was_empty: false, was_already: false, station }
    }

    /// Builds the road (see `spec_build_road`).
    pub fn execute(&mut self, map: &mut GameMap) -> (r: BuildResult)
        requires
            old(map).grid.wf(),
        ensures
            final(map).grid.wf(),
            (r, final(map).grid@, *final(self)) == spec_build_road(old(map).grid@, *old(self)),
            final(map).grid.buildings == old(map).grid.buildings,
            final(map).cities == old(map).cities,
            final(map).vehicles == old(map).vehicles,
            final(map).metadata == old(map).metadata,
            final(map).tick == old(map).tick,
            old(map).wf() ==> final(map).wf(),
    {
        let ghost g0 = map.grid@;
        let r = match map.grid.get_tile_mut(&self.pos) {
            None => Err(BuildError::InvalidTile),
            Some(tile) => match tile {
                Tile::Empty => {
                    self.was_empty = true;
                    *tile = Tile::Road(Road::new_connected(self.dir, self.station));
                    Ok(())
                },
                Tile::Road(road) => {
                    self.was_empty = false;
                    self.was_already = road.is_connected(self.dir);
                    road.connect(self.dir);
                    if self.station.is_some() {
                        road.station = self.station;
                    }
                    Ok(())
                },
                _ => Err(BuildError::OccupiedTile),
            },
        };
        proof {
            if let Some(t) = spec_tile_at(g0, self.pos) {
                if r is Err {
                    lemma_set_tile_same(g0, self.pos);
                }
                lemma_set_tile_bounds_if(g0, self.pos, map.grid@);
            }
        }
        r
    }

    /// Undoes the road (see `spec_unbuild_road`).
    pub fn undo(&mut self, map: &mut GameMap) -> (r: BuildResult)
        requires
            old(map).grid.wf(),
        ensures
            final(map).grid.wf(),
            (r, final(map).grid@) == spec_unbuild_road(old(map).grid@, *old(self)),
            *final(self) == *old(self),
            final(map).grid.buildings == old(map).grid.buildings,
            final(map).cities == old(map).cities,
            final(map).vehicles == old(map).vehicles,
            final(map).metadata == old(map).metadata,
            final(map).tick == old(map).tick,
            old(map).wf() ==> final(map).wf(),
    {
        let ghost g0 = map.grid@;
        let r = match map.grid.get_tile_mut(&self.pos) {
            None => Err(BuildError::InvalidTile),
            Some(tile) => {
                if self.was_empty {
                    *tile = Tile::Empty;
                    Ok(())
                } else {
                    match tile {
                        Tile::Road(road) => {
                            if !self.was_already {
                                road.disconnect(self.dir);
                            }
                            Ok(())
                        },
                        _ => Err(BuildError::InvalidTile),
                    }
                }
            },
        };
        proof {
            if let Some(t) = spec_tile_at(g0, self.pos) {
                if r is Err || (!self.was_empty && self.was_already) {
                    lemma_set_tile_same(g0, self.pos);
                }
                lemma_set_tile_bounds_if(g0, self.pos, map.grid@);
            }
        }
        r
    }
}

/// The tile a clear action keeps for its undo, as a plain value.
pub open spec fn saved_tile(a: BuildActionClearTile) -> Option<TileView> {
    match a.tile {
        Some(t) => Some(t@),
        None => None,
    }
}

/// What clearing the tile at `pos` answers on grid `g` (in a level, or not),
/// the grid after it and the tile kept: buildings stay in levels, anything
/// else is kept and replaced by empty ground.
pub open spec fn spec_clear_tile(
    g: Seq<Seq<(TileView, TileView)>>,
    pos: Position,
    is_level: bool,
    saved: Option<TileView>,
) -> (BuildResult, Seq<Seq<(TileView, TileView)>>, Option<TileView>) {
    match spec_tile_at(g, pos) {
        None => (Err(BuildError::InvalidTile), g, saved),
        Some(t) => if t is Building && is_level {
            (Err(BuildError::OccupiedTile), g, saved)
        } else {
            (Ok(()), spec_set_tile(g, pos, TileView::Empty), Some(t))
        },
    }
}

/// What undoing a clear answers on grid `g`, the grid after it and the tile
/// kept: the kept tile is put back and let go of.
pub open spec fn spec_unclear_tile(
    g: Seq<Seq<(TileView, TileView)>>,
    pos: Position,
    saved: Option<TileView>,
) -> (BuildResult, Seq<Seq<(TileView, TileView)>>, Option<TileView>) {
    match spec_tile_at(g, pos) {
        None => (Err(BuildError::InvalidTile), g, saved),
        Some(_) => match saved {
            Some(t) => (Ok(()), spec_set_tile(g, pos, t), None),
            None => (Err(BuildError::InvalidTile), g, None),
        },
    }
}

/// Law: a tile that was cleared is given back by the undo, and the grid is
/// as it was.
pub proof fn lemma_clear_tile_undo(
    g: Seq<Seq<(TileView, TileView)>>,
    pos: Position,
    is_level: bool,
    saved: Option<TileView>,
)
    requires
        spec_clear_tile(g, pos, is_level, saved).0 is Ok,
    ensures
        spec_unclear_tile(spec_clear_tile(g, pos, is_level, saved).1, pos, spec_clear_tile(g, pos, is_level, saved).2)
            == (Ok::<(), BuildError>(()), g, None::<TileView>),
{
    let t = spec_tile_at(g, pos)->0;
    lemma_set_tile_at(g, pos, TileView::Empty, pos);
    lemma_set_tile_twice(g, pos, TileView::Empty, t);
    lemma_set_tile_same(g, pos);
}

/// Clearing one tile, keeping what stood there for the undo.
pub struct BuildActionClearTile {
    pub pos: Position,
    pub tile: Option<Tile>,
}

impl BuildActionClearTile {
    pub fn new(pos: Position) -> (r: Self)
        ensures
            r.pos == pos,
            r.tile is None,
    {
        Self { pos, tile: None }
    }

    /// The kept tile is well formed.
    pub open spec fn wf(&self) -> bool {
        self.tile matches Some(t) ==> t.wf()
    }

    /// Clears the tile (see `spec_clear_tile`).
    pub fn execute(&mut self, map: &mut GameMap) -> (r: BuildResult)
        requires
            old(map).grid.wf(),
            old(self).wf(),
        ensures
            final(map).grid.wf(),
            final(self).wf(),
            (r, final(map).grid@, saved_tile(*final(self))) == spec_clear_tile(
                old(map).grid@,
                old(self).pos,
                old(map).metadata.is_level,
                saved_tile(*old(self)),
            ),
            final(self).pos == old(self).pos,
            final(map).grid.buildings == old(map).grid.buildings,
            final(map).cities == old(map).cities,
            final(map).vehicles == old(map).vehicles,
            final(map).metadata == old(map).metadata,
            final(map).tick == old(map).tick,
            old(map).wf() ==> final(map).wf(),
    {
        let ghost g0 = map.grid@;
        let is_level = map.metadata.is_level;
        let r = match map.grid.get_tile_mut(&self.pos) {
            None => Err(BuildError::InvalidTile),
            Some(tile) => {
                let blocked = match tile {
                    Tile::Building(_) => is_level,
                    _ => false,
                };
                if blocked {
                    Err(BuildError::OccupiedTile)
                } else {
                    self.tile = Some(tile.duplicate());
                    *tile = Tile::Empty;
                    Ok(())
                }
            },
        };
        proof {
            if let Some(t) = spec_tile_at(g0, self.pos) {
                if r is Err {
                    lemma_set_tile_same(g0, self.pos);
                }
                lemma_set_tile_bounds_if(g0, self.pos, map.grid@);
            }
        }
        r
    }

    /// Puts the kept tile back (see `spec_unclear_tile`).
    pub fn undo(&mut self, map: &mut GameMap) -> (r: BuildResult)
        requires
            old(map).grid.wf(),
            old(self).wf(),
        ensures
            final(map).grid.wf(),
            final(self).wf(),
            (r, final(map).grid@, saved_tile(*final(self))) == spec_unclear_tile(
                old(map).grid@,
                old(self).pos,
                saved_tile(*old(self)),
            ),
            final(self).pos == old(self).pos,
            final(map).grid.buildings == old(map).grid.buildings,
            final(map).cities == old(map).cities,
            final(map).vehicles == old(map).vehicles,
            final(map).metadata == old(map).metadata,
            final(map).tick == old(map).tick,
            old(map).wf() ==> final(map).wf(),
    {
        let ghost g0 = map.grid@;
        let r = match map.grid.get_tile_mut(&self.pos) {
            None => Err(BuildError::InvalidTile),
            Some(tile) => match &self.tile {
                Some(saved) => {
                    *tile = saved.duplicate();
                    self.tile = None;
                    Ok(())
                },
                None => Err(BuildError::InvalidTile),
            },
        };
        proof {
            if let Some(t) = spec_tile_at(g0, self.pos) {
                if r is Err {
                    lemma_set_tile_same(g0, self.pos);
                }
                lemma_set_tile_bounds_if(g0, self.pos, map.grid@);
            }
        }
        r
    }
}

/// The grid after marking the tiles of the 2x2 block at `pos`, from the
/// `k`-th on, as building `id`; it stops at the first tile that is not empty
/// ground (or not on the grid) with `OccupiedTile`.
pub open spec fn mark_block(g: Seq<Seq<(TileView, TileView)>>, pos: Position, id: Id, k: int) -> (
    BuildResult,
    Seq<Seq<(TileView, TileView)>>,
)
    decreases 4 - k,
{
    if k >= 4 {
        (Ok(()), g)
    } else {
        let p = plus(pos, spec_square()[k]);
        match spec_tile_at(g, p) {
            Some(TileView::Empty) => mark_block(spec_set_tile(g, p, TileView::Building(id)), pos, id, k + 1),
            _ => (Err(BuildError::OccupiedTile), g),
        }
    }
}

/// The grid with the tiles of the 2x2 block at `pos`, from the `k`-th on, made
/// empty ground.
pub open spec fn clear_block(g: Seq<Seq<(TileView, TileView)>>, pos: Position, k: int) -> Seq<
    Seq<(TileView, TileView)>,
>
    decreases 4 - k,
{
    if k >= 4 {
        g
    } else {
        let p = plus(pos, spec_square()[k]);
        match spec_tile_at(g, p) {
            Some(_) => clear_block(spec_set_tile(g, p, TileView::Empty), pos, k + 1),
            None => clear_block(g, pos, k + 1),
        }
    }
}

/// `q` is one of the tiles of the 2x2 block at `pos`, from the `k`-th on.
pub open spec fn block_from(pos: Position, q: Position, k: int) -> bool {
    ||| k <= 0 && q == plus(pos, spec_square()[0])
    ||| k <= 1 && q == plus(pos, spec_square()[1])
    ||| k <= 2 && q == plus(pos, spec_square()[2])
    ||| k <= 3 && q == plus(pos, spec_square()[3])
}

/// Marking a 2x2 block whose tiles (from the `k`-th on) are empty ground
/// succeeds, marks exactly those tiles, and keeps the grid's shape.
pub proof fn lemma_mark_free_block(g: Seq<Seq<(TileView, TileView)>>, pos: Position, id: Id, k: int)
    requires
        0 <= k <= 4,
        pos.x < i16::MAX,
        pos.y < i16::MAX,
        forall|j: int| k <= j < 4 ==> #[trigger] spec_tile_at(g, plus(pos, spec_square()[j])) == Some(TileView::Empty),
    ensures
        mark_block(g, pos, id, k).0 == Ok::<(), BuildError>(()),
        forall|q: Position| #[trigger]
            spec_tile_at(mark_block(g, pos, id, k).1, q) == (if block_from(pos, q, k) {
                Some(TileView::Building(id))
            } else {
                spec_tile_at(g, q)
            }),
        mark_block(g, pos, id, k).1.len() == g.len(),
        forall|y: int| 0 <= y < g.len() ==> #[trigger] mark_block(g, pos, id, k).1[y].len() == g[y].len(),
    decreases 4 - k,
{
    let sq = spec_square();
    assert(sq[0] == Direction { x: 0, y: 0, z: 0 });
    assert(sq[1] == Direction { x: 1, y: 0, z: 0 });
    assert(sq[2] == Direction { x: 0, y: 1, z: 0 });
    assert(sq[3] == Direction { x: 1, y: 1, z: 0 });
    if k < 4 {
        let p = plus(pos, sq[k]);
        let g1 = spec_set_tile(g, p, TileView::Building(id));
        assert(spec_tile_at(g, p) == Some(TileView::Empty));
        assert forall|j: int| k + 1 <= j < 4 implies #[trigger] spec_tile_at(g1, plus(pos, sq[j])) == Some(
            TileView::Empty,
        ) by {
            lemma_set_tile_at(g, p, TileView::Building(id), plus(pos, sq[j]));
            assert(spec_tile_at(g, plus(pos, sq[j])) == Some(TileView::Empty));
        }
        lemma_mark_free_block(g1, pos, id, k + 1);
        assert(mark_block(g, pos, id, k) == mark_block(g1, pos, id, k + 1));
        assert forall|q: Position| #[trigger]
            spec_tile_at(mark_block(g, pos, id, k).1, q) == (if block_from(pos, q, k) {
                Some(TileView::Building(id))
            } else {
                spec_tile_at(g, q)
            }) by {
            lemma_set_tile_at(g, p, TileView::Building(id), q);
        }
        lemma_set_tile_at(g, p, TileView::Building(id), p);
        assert forall|y: int| 0 <= y < g.len() implies #[trigger] mark_block(g, pos, id, k).1[y].len() == g[y].len() by {
            assert(g1[y].len() == g[y].len());
        }
    }
}

/// The 2x2 block at `pos` lies on the grid.
pub open spec fn block_on_grid(g: Seq<Seq<(TileView, TileView)>>, pos: Position) -> bool {
    forall|k: int| 0 <= k < 4 ==> #[trigger] spec_tile_at(g, plus(pos, spec_square()[k])) is Some
}

/// Putting a building on the map, on a 2x2 block of empty ground.
pub struct BuildActionBuilding {
    pub building: Building,
    pub building_id: Option<Id>,
}

impl BuildActionBuilding {
    pub fn new(building: Building) -> (r: Self)
        ensures
            r.building == building,
            r.building_id is None,
    {
        Self { building, building_id: None }
    }

    /// Adds the building under a new id, then marks its block (see
    /// `mark_block`); a block that is not free leaves the tiles marked so far.
    pub fn execute(&mut self, map: &mut GameMap) -> (r: BuildResult)
        requires
            old(map).grid.wf(),
            old(map).grid.buildings.id < Id::MAX,
            old(self).building.pos.x < i16::MAX,
            old(self).building.pos.y < i16::MAX,
        ensures
            final(map).grid.wf(),
            final(self).building == old(self).building,
            final(self).building_id == Some(old(map).grid.buildings.id),
            (r, final(map).grid@) == mark_block(old(map).grid@, old(self).building.pos, old(map).grid.buildings.id, 0),
            final(map).grid.buildings@ == old(map).grid.buildings@.insert(old(map).grid.buildings.id, old(self).building),
            final(map).grid.buildings.id == old(map).grid.buildings.id + 1,
            final(map).cities.id == old(map).cities.id,
            final(map).cities@.dom() == old(map).cities@.dom(),
            forall|c: Id| #[trigger] old(map).cities@.contains_key(c) ==> final(map).cities@[c] == (if c
                == old(self).building.city_id {
                super::city::City { houses: final(map).cities@[c].houses, ..old(map).cities@[c] }
            } else {
                old(map).cities@[c]
            }),
            old(map).cities@.contains_key(old(self).building.city_id) ==> final(map).cities@[old(self).building.city_id].houses@
                == old(map).cities@[old(self).building.city_id].houses@.push(old(map).grid.buildings.id),
            final(map).vehicles == old(map).vehicles,
            final(map).metadata == old(map).metadata,
            final(map).tick == old(map).tick,
            old(map).wf() && old(map).cities@.contains_key(old(self).building.city_id) && placed(old(self).building)
                ==> final(map).wf(),
    {
        let id = map.add_building(self.building);
        self.building_id = Some(id);
        let ghost b1 = map.grid.buildings;
        let ghost c1 = map.cities;
        let ghost cond = old(map).wf() && old(map).cities@.contains_key(old(self).building.city_id) && placed(old(self).building);
        let square = Direction::square();
        let mut k: usize = 0;
        while k < 4
            invariant
                0 <= k <= 4,
                square@ == spec_square(),
                self.building == old(self).building,
                self.building_id == Some(id),
                id == old(map).grid.buildings.id,
                map.grid.buildings == b1,
                map.cities == c1,
                b1@ == old(map).grid.buildings@.insert(id, old(self).building),
                b1.id == id + 1,
                c1.id == old(map).cities.id,
                c1@.dom() == old(map).cities@.dom(),
                forall|c: Id| #[trigger] old(map).cities@.contains_key(c) ==> c1@[c] == (if c
                    == old(self).building.city_id {
                    super::city::City { houses: c1@[c].houses, ..old(map).cities@[c] }
                } else {
                    old(map).cities@[c]
                }),
                old(map).cities@.contains_key(old(self).building.city_id) ==> c1@[old(self).building.city_id].houses@
                    == old(map).cities@[old(self).building.city_id].houses@.push(id),
                map.vehicles == old(map).vehicles,
                map.metadata == old(map).metadata,
                map.tick == old(map).tick,
                cond == (old(map).wf() && old(map).cities@.contains_key(old(self).building.city_id) && placed(
                    old(self).building,
                )),
                cond ==> map.wf(),
                self.building.pos.x < i16::MAX,
                self.building.pos.y < i16::MAX,
                mark_block(old(map).grid@, self.building.pos, id, 0) == mark_block(map.grid@, self.building.pos, id, k as int),
                map.grid.wf(),
                super::grid::within_route_bounds(old(map).grid@) ==> super::grid::within_route_bounds(map.grid@),
            decreases 4 - k,
        {
            let p = self.building.pos + square[k];
            let ghost g0 = map.grid@;
            let free = match map.grid.get_tile(&p) {
                Some(tile) => match tile {
                    Tile::Empty => true,
                    _ => false,
                },
                None => false,
            };
            if !free {
                return Err(BuildError::OccupiedTile);
            }
            match map.grid.get_tile_mut(&p) {
                Some(tile) => {
                    *tile = Tile::Building(id);
                },
                None => {},
            }
            proof {
                lemma_set_tile_bounds_if(g0, p, map.grid@);
            }
            k = k + 1;
        }
        Ok(())
    }

    /// Takes the building off the map (when it is still there) and makes its
    /// block empty ground again.
    pub fn undo(&mut self, map: &mut GameMap) -> (r: BuildResult)
        requires
            old(map).grid.wf(),
            old(self).building.pos.x < i16::MAX,
            old(self).building.pos.y < i16::MAX,
            block_on_grid(old(map).grid@, old(self).building.pos),
        ensures
            final(map).grid.wf(),
            r is Ok,
            final(self).building == old(self).building,
            final(self).building_id == (match old(self).building_id {
                Some(id) => if old(map).grid.buildings@.contains_key(id) {
                    None
                } else {
                    Some(id)
                },
                None => None,
            }),
            final(map).grid@ == clear_block(old(map).grid@, old(self).building.pos, 0),
            final(map).grid.buildings@ == (match old(self).building_id {
                Some(id) => old(map).grid.buildings@.remove(id),
                None => old(map).grid.buildings@,
            }),
            final(map).grid.buildings.id == old(map).grid.buildings.id,
            final(map).vehicles == old(map).vehicles,
            final(map).metadata == old(map).metadata,
            final(map).tick == old(map).tick,
            old(map).wf() ==> final(map).wf(),
    {
        match self.building_id {
            Some(building_id) => {
                match map.remove_building(&building_id) {
                    Some(_) => {
                        self.building_id = None;
                    },
                    None => {},
                }
            },
            None => {},
        }
        let square = Direction::square();
        let mut k: usize = 0;
        let ghost g_start = map.grid@;
        let ghost b1 = map.grid.buildings;
        let ghost c1 = map.cities;
        let ghost s1 = *self;
        let ghost cond = old(map).wf();
        assert(g_start == old(map).grid@);
        while k < 4
            invariant
                0 <= k <= 4,
                square@ == spec_square(),
                *self == s1,
                map.grid.buildings == b1,
                map.cities == c1,
                map.vehicles == old(map).vehicles,
                map.metadata == old(map).metadata,
                map.tick == old(map).tick,
                cond ==> map.wf(),
                self.building.pos.x < i16::MAX,
                self.building.pos.y < i16::MAX,
                forall|j: int| 0 <= j < 4 ==> #[trigger] spec_tile_at(map.grid@, plus(self.building.pos, spec_square()[j])) is Some,
                clear_block(g_start, self.building.pos, 0) == clear_block(map.grid@, self.building.pos, k as int),
                map.grid.wf(),
                super::grid::within_route_bounds(g_start) ==> super::grid::within_route_bounds(map.grid@),
            decreases 4 - k,
        {
            let p = self.building.pos + square[k];
            let ghost g0 = map.grid@;
            assert(spec_tile_at(g0, plus(self.building.pos, spec_square()[k as int])) is Some);
            match map.grid.get_tile_mut(&p) {
                Some(tile) => {
                    *tile = Tile::Empty;
                },
                None => {},
            }
            proof {
                lemma_set_tile_bounds_if(g0, p, map.grid@);
                assert forall|j: int| 0 <= j < 4 implies #[trigger] spec_tile_at(map.grid@, plus(self.building.pos, spec_square()[j])) is Some by {
                    lemma_set_tile_at(g0, p, TileView::Empty, plus(self.building.pos, spec_square()[j]));
                }
            }
            k = k + 1;
        }
        Ok(())
    }
}

/// The answer, grid and kept tiles after the clear actions at `positions`,
/// from the `i`-th on, run in turn; the first failure ends the run.
pub open spec fn clear_tiles_from(
    g: Seq<Seq<(TileView, TileView)>>,
    positions: Seq<Position>,
    is_level: bool,
    saved: Seq<Option<TileView>>,
    i: int,
) -> (BuildResult, Seq<Seq<(TileView, TileView)>>, Seq<Option<TileView>>)
    decreases positions.len() - i,
{
    if i >= positions.len() {
        (Ok(()), g, saved)
    } else {
        let (r, g1, s1) = spec_clear_tile(g, positions[i], is_level, saved[i]);
        match r {
            Ok(()) => clear_tiles_from(g1, positions, is_level, saved.update(i, s1), i + 1),
            Err(e) => (Err(e), g, saved),
        }
    }
}

/// The answer, grid and kept tiles after undoing the clear actions at
/// `positions`, from the `i`-th on, in turn; the first failure ends the run.
pub open spec fn unclear_tiles_from(
    g: Seq<Seq<(TileView, TileView)>>,
    positions: Seq<Position>,
    saved: Seq<Option<TileView>>,
    i: int,
) -> (BuildResult, Seq<Seq<(TileView, TileView)>>, Seq<Option<TileView>>)
    decreases positions.len() - i,
{
    if i >= positions.len() {
        (Ok(()), g, saved)
    } else {
        let (r, g1, s1) = spec_unclear_tile(g, positions[i], saved[i]);
        match r {
            Ok(()) => unclear_tiles_from(g1, positions, saved.update(i, s1), i + 1),
            Err(e) => (Err(e), g, saved.update(i, s1)),
        }
    }
}

/// Clearing the 2x2 block at a position (rounded down to even
/// coordinates): the building standing there is taken off the map first.
pub struct BuildActionClearArea {
    pub pos: Position,
    pub clear_actions: Vec<BuildActionClearTile>,
    pub old_building: Option<(Id, Building)>,
}

impl BuildActionClearArea {
    /// The positions of the clear actions.
    pub open spec fn positions(&self) -> Seq<Position> {
        self.clear_actions@.map_values(|a: BuildActionClearTile| a.pos)
    }

    /// The tiles the clear actions keep.
    pub open spec fn saved(&self) -> Seq<Option<TileView>> {
        self.clear_actions@.map_values(|a: BuildActionClearTile| saved_tile(a))
    }

    /// Four clear actions whose kept tiles are well formed.
    pub open spec fn wf(&self) -> bool {
        &&& self.clear_actions@.len() == 4
        &&& forall|i: int| 0 <= i < 4 ==> (#[trigger] self.clear_actions@[i]).wf()
    }

    pub fn new(pos: Position) -> (r: Self)
        ensures
            r.wf(),
            r.pos == pos.round_to_spec(2),
            r.positions() == spec_square().map_values(|d: Direction| plus(pos.round_to_spec(2), d)),
            r.saved() == seq![None::<TileView>, None, None, None],
            r.old_building is None,
    {
        let pos = pos.round_to(2);
        let square = Direction::square();
        let mut clear_actions: Vec<BuildActionClearTile> = Vec::new();
        let mut i: usize = 0;
        while i < 4
            invariant
                0 <= i <= 4,
                square@ == spec_square(),
                pos.x < i16::MAX,
                pos.y < i16::MAX,
                clear_actions@.len() == i,
                forall|j: int| 0 <= j < i ==> (#[trigger] clear_actions@[j]).pos == plus(pos, spec_square()[j])
                    && clear_actions@[j].tile is None,
            decreases 4 - i,
        {
            clear_actions.push(BuildActionClearTile::new(pos + square[i]));
            i = i + 1;
        }
        let r = Self { pos, clear_actions, old_building: None };
        assert(r.positions() =~= spec_square().map_values(|d: Direction| plus(pos, d)));
        assert(r.saved() =~= seq![None::<TileView>, None, None, None]);
        r
    }

    /// Takes the building standing at the block's corner off the map, then
    /// clears the four tiles in turn (see `clear_tiles_from`).
    pub fn execute(&mut self, map: &mut GameMap) -> (r: BuildResult)
        requires
            old(map).grid.wf(),
            old(self).wf(),
        ensures
            final(map).grid.wf(),
            final(self).wf(),
            final(self).pos == old(self).pos,
            final(self).positions() == old(self).positions(),
            ({
                let removed = match spec_tile_at(old(map).grid@, old(self).pos) {
                    Some(TileView::Building(id)) => if old(map).grid.buildings@.contains_key(id) {
                        Some((id, old(map).grid.buildings@[id]))
                    } else {
                        None
                    },
                    _ => None,
                };
                &&& final(self).old_building == (if removed is Some {
                    removed
                } else {
                    old(self).old_building
                })
                &&& final(map).grid.buildings@ == (match removed {
                    Some((id, _)) => old(map).grid.buildings@.remove(id),
                    None => old(map).grid.buildings@,
                })
                &&& (r, final(map).grid@, final(self).saved()) == clear_tiles_from(
                    old(map).grid@,
                    old(self).positions(),
                    old(map).metadata.is_level,
                    old(self).saved(),
                    0,
                )
            }),
            final(map).grid.buildings.id == old(map).grid.buildings.id,
            final(map).vehicles == old(map).vehicles,
            final(map).metadata == old(map).metadata,
            final(map).tick == old(map).tick,
            old(map).wf() ==> final(map).wf(),
    {
        let found = match map.grid.get_tile(&self.pos) {
            Some(tile) => match tile {
                Tile::Building(building_id) => Some(*building_id),
                _ => None,
            },
            None => None,
        };
        match found {
            Some(building_id) => match map.remove_building(&building_id) {
                Some(building) => {
                    self.old_building = Some((building_id, building));
                },
                None => {},
            },
            None => {},
        }
        let ghost g0 = map.grid@;
        let ghost positions = self.positions();
        let ghost saved0 = self.saved();
        let ghost b1 = map.grid.buildings;
        let ghost ob = self.old_building;
        let ghost cond = old(map).wf();
        let ghost removed = match spec_tile_at(old(map).grid@, old(self).pos) {
            Some(TileView::Building(id)) => if old(map).grid.buildings@.contains_key(id) {
                Some((id, old(map).grid.buildings@[id]))
            } else {
                None
            },
            _ => None,
        };
        assert(cond ==> map.wf());
        assert(positions =~= old(self).positions());
        assert(saved0 =~= old(self).saved());
        let mut i: usize = 0;
        while i < 4
            invariant
                0 <= i <= 4,
                g0 == old(map).grid@,
                positions == old(self).positions(),
                saved0 == old(self).saved(),
                ob == (if removed is Some {
                    removed
                } else {
                    old(self).old_building
                }),
                b1@ == (match removed {
                    Some((id, _)) => old(map).grid.buildings@.remove(id),
                    None => old(map).grid.buildings@,
                }),
                b1.id == old(map).grid.buildings.id,
                removed == (match spec_tile_at(old(map).grid@, old(self).pos) {
                    Some(TileView::Building(id)) => if old(map).grid.buildings@.contains_key(id) {
                        Some((id, old(map).grid.buildings@[id]))
                    } else {
                        None
                    },
                    _ => None,
                }),
                self.wf(),
                self.pos == old(self).pos,
                self.old_building == ob,
                self.positions() == positions,
                positions.len() == 4,
                map.grid.buildings == b1,
                map.vehicles == old(map).vehicles,
                map.metadata == old(map).metadata,
                map.tick == old(map).tick,
                map.grid.wf(),
                cond == old(map).wf(),
                cond ==> map.wf(),
                clear_tiles_from(g0, positions, map.metadata.is_level, saved0, 0) == clear_tiles_from(
                    map.grid@,
                    positions,
                    map.metadata.is_level,
                    self.saved(),
                    i as int,
                ),
            decreases 4 - i,
        {
            let ghost before = (map.grid@, self.saved());
            let r = self.clear_actions[i].execute(map);
            proof {
                assert(self.saved() =~= before.1.update(i as int, saved_tile(self.clear_actions@[i as int])));
                assert(self.positions() =~= positions);
            }
            match r {
                Ok(()) => {},
                Err(e) => {
                    return Err(e);
                },
            }
            i = i + 1;
        }
        Ok(())
    }

    /// Puts the four tiles back in turn (see `unclear_tiles_from`), then the
    /// building that stood there, when all went back.
    pub fn undo(&mut self, map: &mut GameMap) -> (r: BuildResult)
        requires
            old(map).grid.wf(),
            old(self).wf(),
        ensures
            final(map).grid.wf(),
            final(self).wf(),
            final(self).pos == old(self).pos,
            final(self).positions() == old(self).positions(),
            final(self).old_building == old(self).old_building,
            ({
                let (r0, g1, s1) = unclear_tiles_from(old(map).grid@, old(self).positions(), old(self).saved(), 0);
                &&& r == r0
                &&& final(map).grid@ == g1
                &&& final(self).saved() == s1
                &&& final(map).grid.buildings@ == (match old(self).old_building {
                    Some((id, b)) => if r0 is Ok {
                        old(map).grid.buildings@.insert(id, b)
                    } else {
                        old(map).grid.buildings@
                    },
                    None => old(map).grid.buildings@,
                })
            }),
            final(map).grid.buildings.id == old(map).grid.buildings.id,
            final(map).vehicles == old(map).vehicles,
            final(map).metadata == old(map).metadata,
            final(map).tick == old(map).tick,
    {
        let ghost g0 = map.grid@;
        let ghost positions = self.positions();
        let ghost saved0 = self.saved();
        let mut i: usize = 0;
        while i < 4
            invariant
                0 <= i <= 4,
                g0 == old(map).grid@,
                positions == old(self).positions(),
                saved0 == old(self).saved(),
                self.wf(),
                self.pos == old(self).pos,
                self.old_building == old(self).old_building,
                self.positions() == positions,
                positions.len() == 4,
                map.grid.buildings == old(map).grid.buildings,
                map.vehicles == old(map).vehicles,
                map.metadata == old(map).metadata,
                map.tick == old(map).tick,
                map.grid.wf(),
                unclear_tiles_from(g0, positions, saved0, 0) == unclear_tiles_from(
                    map.grid@,
                    positions,
                    self.saved(),
                    i as int,
                ),
            decreases 4 - i,
        {
            let ghost before = (map.grid@, self.saved());
            let r = self.clear_actions[i].undo(map);
            proof {
                assert(self.saved() =~= before.1.update(i as int, saved_tile(self.clear_actions@[i as int])));
                assert(self.positions() =~= positions);
            }
            match r {
                Ok(()) => {},
                Err(e) => {
                    return Err(e);
                },
            }
            i = i + 1;
        }
        match self.old_building {
            Some((id, building)) => {
                map.insert_building(id, building);
            },
            None => {},
        }
        Ok(())
    }
}

/// The grid and actions after running the road actions `acts[j..n]` in turn,
/// whatever each answers.
pub open spec fn roads_exec_each(g: Seq<Seq<(TileView, TileView)>>, acts: Seq<BuildRoad>, j: int, n: int) -> (
    Seq<Seq<(TileView, TileView)>>,
    Seq<BuildRoad>,
)
    decreases n - j,
{
    if j >= n {
        (g, acts)
    } else {
        let (_, g1, a1) = spec_build_road(g, acts[j]);
        roads_exec_each(g1, acts.update(j, a1), j + 1, n)
    }
}

/// The grid after undoing the road actions `acts[j..n]` in turn, whatever each answers.
pub open spec fn roads_undo_each(g: Seq<Seq<(TileView, TileView)>>, acts: Seq<BuildRoad>, j: int, n: int) -> Seq<
    Seq<(TileView, TileView)>,
>
    decreases n - j,
{
    if j >= n {
        g
    } else {
        roads_undo_each(spec_unbuild_road(g, acts[j]).1, acts, j + 1, n)
    }
}

/// Running the road actions from the `i`-th on: the first failure undoes
/// the ones before it and ends the run.
pub open spec fn roads_exec_from(g: Seq<Seq<(TileView, TileView)>>, acts: Seq<BuildRoad>, i: int) -> (
    BuildResult,
    Seq<Seq<(TileView, TileView)>>,
    Seq<BuildRoad>,
)
    decreases acts.len() - i,
{
    if i < 0 || i >= acts.len() {
        (Ok(()), g, acts)
    } else {
        let (r, g1, a1) = spec_build_road(g, acts[i]);
        match r {
            Ok(()) => roads_exec_from(g1, acts.update(i, a1), i + 1),
            Err(e) => (Err(e), roads_undo_each(g, acts, 0, i), acts),
        }
    }
}

/// Undoing the road actions from the `i`-th on: the first failure runs the
/// ones before it again and ends the run.
pub open spec fn roads_unexec_from(g: Seq<Seq<(TileView, TileView)>>, acts: Seq<BuildRoad>, i: int) -> (
    BuildResult,
    Seq<Seq<(TileView, TileView)>>,
    Seq<BuildRoad>,
)
    decreases acts.len() - i,
{
    if i >= acts.len() {
        (Ok(()), g, acts)
    } else {
        let (r, g1) = spec_unbuild_road(g, acts[i]);
        match r {
            Ok(()) => roads_unexec_from(g1, acts, i + 1),
            Err(e) => {
                let (g2, a2) = roads_exec_each(g, acts, 0, i);
                (Err(e), g2, a2)
            },
        }
    }
}

/// A list of roads built together: all of them, or none.
pub struct BuildActionList {
    pub list: Vec<BuildRoad>,
}

impl BuildActionList {
    pub fn new() -> (r: Self)
        ensures
            r.list@ == Seq::<BuildRoad>::empty(),
    {
        Self { list: Vec::new() }
    }

    pub fn new_from_vec(vec: Vec<BuildRoad>) -> (r: Self)
        ensures
            r.list@ == vec@,
    {
        Self { list: vec }
    }

    pub fn append(&mut self, item: BuildRoad)
        ensures
            final(self).list@ == old(self).list@.push(item),
    {
        self.list.push(item);
    }

    /// Undoes the first `index` roads, whatever each answers.
    fn rollback(&mut self, map: &mut GameMap, index: usize)
        requires
            old(map).grid.wf(),
            index <= old(self).list@.len(),
        ensures
            final(map).grid.wf(),
            final(map).grid@ == roads_undo_each(old(map).grid@, old(self).list@, 0, index as int),
            final(self).list@ == old(self).list@,
            final(map).grid.buildings == old(map).grid.buildings,
            final(map).cities == old(map).cities,
            final(map).vehicles == old(map).vehicles,
            final(map).metadata == old(map).metadata,
            final(map).tick == old(map).tick,
            old(map).wf() ==> final(map).wf(),
    {
        let mut i: usize = 0;
        while i < index
            invariant
                0 <= i <= index <= self.list@.len(),
                self.list@ == old(self).list@,
                map.grid.wf(),
                roads_undo_each(old(map).grid@, old(self).list@, 0, index as int) == roads_undo_each(
                    map.grid@,
                    old(self).list@,
                    i as int,
                    index as int,
                ),
                map.grid.buildings == old(map).grid.buildings,
                map.cities == old(map).cities,
                map.vehicles == old(map).vehicles,
                map.metadata == old(map).metadata,
                map.tick == old(map).tick,
                old(map).wf() ==> map.wf(),
            decreases index - i,
        {
            let _ = self.list[i].undo(map);
            i = i + 1;
        }
    }

    /// Builds the first `index` roads again, whatever each answers.
    fn rollforward(&mut self, map: &mut GameMap, index: usize)
        requires
            old(map).grid.wf(),
            index <= old(self).list@.len(),
        ensures
            final(map).grid.wf(),
            (final(map).grid@, final(self).list@) == roads_exec_each(old(map).grid@, old(self).list@, 0, index as int),
            final(map).grid.buildings == old(map).grid.buildings,
            final(map).cities == old(map).cities,
            final(map).vehicles == old(map).vehicles,
            final(map).metadata == old(map).metadata,
            final(map).tick == old(map).tick,
            old(map).wf() ==> final(map).wf(),
    {
        let mut i: usize = 0;
        while i < index
            invariant
                0 <= i <= index <= self.list@.len(),
                self.list@.len() == old(self).list@.len(),
                map.grid.wf(),
                roads_exec_each(old(map).grid@, old(self).list@, 0, index as int) == roads_exec_each(
                    map.grid@,
                    self.list@,
                    i as int,
                    index as int,
                ),
                map.grid.buildings == old(map).grid.buildings,
                map.cities == old(map).cities,
                map.vehicles == old(map).vehicles,
                map.metadata == old(map).metadata,
                map.tick == old(map).tick,
                old(map).wf() ==> map.wf(),
            decreases index - i,
        {
            let ghost before = self.list@;
            let _ = self.list[i].execute(map);
            assert(self.list@ =~= before.update(i as int, self.list@[i as int]));
            i = i + 1;
        }
    }

    /// Builds the roads in turn; the first failure undoes the ones before it
    /// (see `roads_exec_from`).
    pub fn execute(&mut self, map: &mut GameMap) -> (r: BuildResult)
        requires
            old(map).grid.wf(),
        ensures
            final(map).grid.wf(),
            (r, final(map).grid@, final(self).list@) == roads_exec_from(old(map).grid@, old(self).list@, 0),
            final(map).grid.buildings == old(map).grid.buildings,
            final(map).cities == old(map).cities,
            final(map).vehicles == old(map).vehicles,
            final(map).metadata == old(map).metadata,
            final(map).tick == old(map).tick,
            old(map).wf() ==> final(map).wf(),
    {
        let mut i: usize = 0;
        let ghost g0 = map.grid@;
        let ghost l0 = self.list@;
        while i < self.list.len()
            invariant
                0 <= i <= self.list@.len(),
                self.list@.len() == l0.len(),
                g0 == old(map).grid@,
                l0 == old(self).list@,
                map.grid.wf(),
                roads_exec_from(g0, l0, 0) == roads_exec_from(map.grid@, self.list@, i as int),
                forall|j: int| i <= j < self.list@.len() ==> #[trigger] self.list@[j] == l0[j],
                map.grid.buildings == old(map).grid.buildings,
                map.cities == old(map).cities,
                map.vehicles == old(map).vehicles,
                map.metadata == old(map).metadata,
                map.tick == old(map).tick,
                old(map).wf() ==> map.wf(),
            decreases self.list@.len() - i,
        {
            let ghost before = (map.grid@, self.list@);
            let r = self.list[i].execute(map);
            match r {
                Ok(()) => {
                    assert(self.list@ =~= before.1.update(i as int, self.list@[i as int]));
                },
                Err(e) => {
                    assert(self.list@ =~= before.1);
                    self.rollback(map, i);
                    return Err(e);
                },
            }
            i = i + 1;
        }
        Ok(())
    }

    /// Undoes the roads in turn; the first failure builds the ones before it
    /// again (see `roads_unexec_from`).
    pub fn undo(&mut self, map: &mut GameMap) -> (r: BuildResult)
        requires
            old(map).grid.wf(),
        ensures
            final(map).grid.wf(),
            (r, final(map).grid@, final(self).list@) == roads_unexec_from(old(map).grid@, old(self).list@, 0),
            final(map).grid.buildings == old(map).grid.buildings,
            final(map).cities == old(map).cities,
            final(map).vehicles == old(map).vehicles,
            final(map).metadata == old(map).metadata,
            final(map).tick == old(map).tick,
            old(map).wf() ==> final(map).wf(),
    {
        let mut i: usize = 0;
        let ghost g0 = map.grid@;
        let ghost l0 = self.list@;
        while i < self.list.len()
            invariant
                0 <= i <= self.list@.len(),
                self.list@ == l0,
                g0 == old(map).grid@,
                l0 == old(self).list@,
                map.grid.wf(),
                roads_unexec_from(g0, l0, 0) == roads_unexec_from(map.grid@, l0, i as int),
                map.grid.buildings == old(map).grid.buildings,
                map.cities == old(map).cities,
                map.vehicles == old(map).vehicles,
                map.metadata == old(map).metadata,
                map.tick == old(map).tick,
                old(map).wf() ==> map.wf(),
            decreases self.list@.len() - i,
        {
            let r = self.list[i].undo(map);
            assert(self.list@ =~= l0);
            match r {
                Ok(()) => {},
                Err(e) => {
                    self.rollforward(map, i);
                    return Err(e);
                },
            }
            i = i + 1;
        }
        Ok(())
    }
}

/// Whether a road is built on the ground or as a bridge.
#[derive(Clone, Copy, PartialEq, Eq, Structural, Debug)]
pub enum BuildRoadHeight {
    Level,
    Bridge,
}

/// Which way a lane runs along the line it is built on.
#[derive(Clone, Copy, PartialEq, Eq, Structural, Debug)]
pub enum BuildRoadDir {
    Forward,
    Backward,
}

/// One lane of a road.
#[derive(Clone, Copy, PartialEq, Eq, Structural, Debug)]
pub struct BuildRoadLane {
    pub dir: BuildRoadDir,
}

/// The connection of tile `index` of a lane of `length` tiles: along `dir`,
/// except the last tile, which ends the lane.
pub open spec fn build_dir(dir: Direction, index: int, length: int) -> Direction {
    if index != length - 1 {
        dir
    } else {
        Direction::none()
    }
}

/// The plain road action at `pos` towards `dir`.
pub open spec fn road_at(pos: Position, dir: Direction) -> BuildRoad {
    BuildRoad { pos, dir, was_empty: false, was_already: false, station: None }
}

/// The road that `lane` builds on tile `i` (at `pos`) of a line of `count`
/// tiles along `dir`: a backward lane runs the line the other way; a bridge
/// climbs on its first tile, runs one layer up, and comes down on its
/// second-to-last.
pub open spec fn lane_road(
    lane: BuildRoadLane,
    pos: Position,
    dir: Direction,
    i: int,
    count: int,
    height: BuildRoadHeight,
) -> BuildRoad {
    let i2 = if lane.dir == BuildRoadDir::Backward {
        count - 1 - i
    } else {
        i
    };
    let d2 = if lane.dir == BuildRoadDir::Backward {
        dir.spec_inverse()
    } else {
        dir
    };
    let bd = build_dir(d2, i2, count);
    match height {
        BuildRoadHeight::Level => road_at(pos, bd),
        BuildRoadHeight::Bridge => if i2 == 0 {
            road_at(pos, bd.spec_plus(Direction::layer_up()))
        } else if i2 == count - 2 {
            road_at(plus(pos, Direction::layer_up()), bd.spec_plus(Direction::layer_down()))
        } else if i2 == count - 1 {
            road_at(pos, bd)
        } else {
            road_at(plus(pos, Direction::layer_up()), bd)
        },
    }
}

/// The roads the `lanes` build on tile `i` of a line: lane `l` one step
/// further to the right of the line than lane `l - 1`.
pub open spec fn lane_roads(
    lanes: Seq<BuildRoadLane>,
    pos: Position,
    dir: Direction,
    i: int,
    count: int,
    height: BuildRoadHeight,
) -> Seq<BuildRoad> {
    Seq::new(
        lanes.len(),
        |l: int| lane_road(lanes[l], offset(pos, dir.spec_rotate_right(), l), dir, i, count, height),
    )
}

/// The roads built on the first `n` tiles of the line from `s` along `dir`.
pub open spec fn plan_rows(
    lanes: Seq<BuildRoadLane>,
    s: Position,
    dir: Direction,
    count: int,
    height: BuildRoadHeight,
    n: int,
) -> Seq<BuildRoad>
    decreases n,
{
    if n <= 0 {
        seq![]
    } else {
        plan_rows(lanes, s, dir, count, height, n - 1) + lane_roads(
            lanes,
            offset(s, dir, n - 1),
            dir,
            n - 1,
            count,
            height,
        )
    }
}

/// How many tiles the line from `s` to `e` along `dir` covers.
pub open spec fn line_count(s: Position, e: Position, dir: Direction) -> int {
    (if dir.y != 0 {
        abs(e.y - s.y)
    } else if dir.x != 0 {
        abs(e.x - s.x)
    } else {
        0
    }) + 1
}

/// The roads `action_build_road` plans from `start` to `end`: on one tile,
/// a 2x2 block of unconnected road; otherwise a line from the corner of
/// `start`'s block facing `end` to the corner of `end`'s block facing back,
/// every lane side by side.
pub open spec fn road_plan(start: Position, end: Position, lanes: Seq<BuildRoadLane>, height: BuildRoadHeight) -> Seq<
    BuildRoad,
> {
    if start == end {
        spec_square().map_values(|d: Direction| road_at(plus(start, d), Direction::none()))
    } else {
        let dir = spec_direction_to(start, end);
        let s = spec_corner_pos(start.round_to_spec(2), dir);
        let e = spec_corner_pos(end.round_to_spec(2), dir.spec_inverse());
        let d2 = spec_direction_to(s, e);
        plan_rows(lanes, s, d2, line_count(s, e, d2), height, line_count(s, e, d2))
    }
}

/// Positions far enough from the edges of the `i16` range for road building.
pub open spec fn buildable(p: Position) -> bool {
    within(p, 0x3000)
}

/// Whether the build tools may plan roads from or to `p` (see `buildable`).
pub fn is_buildable(p: Position) -> (r: bool)
    ensures
        r == buildable(p),
{
    -0x3000 <= p.x && p.x <= 0x3000 && -0x3000 <= p.y && p.y <= 0x3000 && -0x3000 <= p.z && p.z <= 0x3000
}

/// Every coordinate of `p` is at most `b` away from zero.
pub open spec fn within(p: Position, b: int) -> bool {
    -b <= p.x <= b && -b <= p.y <= b && -b <= p.z <= b
}

/// `spec_direction_to` is a ground step of at most one tile, or none.
pub proof fn lemma_direction_unit(a: Position, b: Position)
    ensures
        -1 <= spec_direction_to(a, b).x <= 1,
        -1 <= spec_direction_to(a, b).y <= 1,
        spec_direction_to(a, b).z == 0,
{
}

/// A line between two positions near the middle fits, one step past its end too.
proof fn lemma_line_fits(s: Position, e: Position)
    requires
        within(s, 0x3002),
        within(e, 0x3002),
    ensures
        offset_fits(s, spec_direction_to(s, e), line_count(s, e, spec_direction_to(s, e))),
{
    let d = spec_direction_to(s, e);
    let n = line_count(s, e, d);
    lemma_direction_unit(s, e);
    lemma_line_within(s, e, n - 1, 0x3002);
    assert(n * d.x == (n - 1) * d.x + d.x) by (nonlinear_arith);
    assert(n * d.y == (n - 1) * d.y + d.y) by (nonlinear_arith);
    assert(n * d.z == (n - 1) * d.z + d.z) by (nonlinear_arith);
}

/// Lanes beside a tile near the middle fit.
proof fn lemma_lane_fits(p: Position, rr: Direction, l: int)
    requires
        within(p, 0x3002),
        0 <= l <= 8,
        -1 <= rr.x <= 1,
        -1 <= rr.y <= 1,
        rr.z == 0,
    ensures
        offset_fits(p, rr, l),
        within(offset(p, rr, l), 0x3100),
{
    assert(-8 <= l * rr.x <= 8) by (nonlinear_arith)
        requires
            0 <= l <= 8,
            -1 <= rr.x <= 1,
    ;
    assert(-8 <= l * rr.y <= 8) by (nonlinear_arith)
        requires
            0 <= l <= 8,
            -1 <= rr.y <= 1,
    ;
    assert(l * rr.z == 0) by (nonlinear_arith)
        requires
            rr.z == 0,
    ;
}

/// The tiles of a line stay between its ends.
proof fn lemma_line_within(s: Position, e: Position, i: int, b: int)
    requires
        within(s, b),
        within(e, b),
        b <= 0x3100,
        0 <= i < line_count(s, e, spec_direction_to(s, e)),
    ensures
        within(offset(s, spec_direction_to(s, e), i), b),
{
}

proof fn lemma_offset_step(p: Position, d: Direction, l: int)
    requires
        offset_fits(p, d, l),
    ensures
        plus(offset(p, d, l), d) == offset(p, d, l + 1),
{
    assert(l * d.x + d.x == (l + 1) * d.x) by (nonlinear_arith);
    assert(l * d.y + d.y == (l + 1) * d.y) by (nonlinear_arith);
    assert(l * d.z + d.z == (l + 1) * d.z) by (nonlinear_arith);
}

impl BuildRoadLane {
    /// See `build_dir`.
    pub fn get_build_dir(&self, dir: Direction, index: usize, length: usize) -> (r: Direction)
        requires
            length >= 1,
        ensures
            r == build_dir(dir, index as int, length as int),
    {
        if index != length - 1 {
            dir
        } else {
            Direction::none()
        }
    }

    /// Appends the road this lane builds on tile `i` (see `lane_road`).
    fn build(
        &self,
        action_list: &mut BuildActionList,
        pos: Position,
        dir: Direction,
        i: usize,
        count: usize,
        height: BuildRoadHeight,
    )
        requires
            i < count,
            within(pos, 0x3100),
            -1 <= dir.x <= 1,
            -1 <= dir.y <= 1,
            dir.z == 0,
        ensures
            final(action_list).list@ == old(action_list).list@.push(
                lane_road(*self, pos, dir, i as int, count as int, height),
            ),
    {
        let mut i = i;
        let mut dir = dir;
        let mut pos = pos;
        if self.dir == BuildRoadDir::Backward {
            i = (count - 1) - i;
            dir = dir.inverse();
        }
        let mut dir = self.get_build_dir(dir, i, count);
        match height {
            BuildRoadHeight::Level => {
                action_list.append(BuildRoad::new(pos, dir));
            },
            BuildRoadHeight::Bridge => {
                if i == 0 {
                    dir = dir + Direction::layer_up();
                } else if i == count - 2 {
                    dir = dir + Direction::layer_down();
                    pos = pos + Direction::layer_up();
                } else if i == count - 1 {
                } else {
                    pos = pos + Direction::layer_up();
                }
                action_list.append(BuildRoad::new(pos, dir));
            },
        }
    }
}

/// How to build a road: on the ground or as a bridge, and its lanes.
pub struct RoadBuildOption {
    pub height: BuildRoadHeight,
    pub lanes: Vec<BuildRoadLane>,
}

/// The lanes of a two-way road: one back, one forward.
pub fn two_way_road_lanes() -> (r: Vec<BuildRoadLane>)
    ensures
        r@ == seq![
            BuildRoadLane { dir: BuildRoadDir::Backward },
            BuildRoadLane { dir: BuildRoadDir::Forward },
        ],
{
    vec![BuildRoadLane { dir: BuildRoadDir::Backward }, BuildRoadLane { dir: BuildRoadDir::Forward }]
}

/// The lanes of a one-way road: both forward.
pub fn one_way_road_lanes() -> (r: Vec<BuildRoadLane>)
    ensures
        r@ == seq![
            BuildRoadLane { dir: BuildRoadDir::Forward },
            BuildRoadLane { dir: BuildRoadDir::Forward },
        ],
{
    vec![BuildRoadLane { dir: BuildRoadDir::Forward }, BuildRoadLane { dir: BuildRoadDir::Forward }]
}

/// The roads of every lane along the line from corner `start` to corner `end`.
fn plan_line(start: Position, end: Position, lanes: &Vec<BuildRoadLane>, height: BuildRoadHeight) -> (r:
    BuildActionList)
    requires
        within(start, 0x3002),
        within(end, 0x3002),
        lanes@.len() <= 8,
    ensures
        r.list@ == plan_rows(
            lanes@,
            start,
            spec_direction_to(start, end),
            line_count(start, end, spec_direction_to(start, end)),
            height,
            line_count(start, end, spec_direction_to(start, end)),
        ),
{
    proof {
        lemma_line_fits(start, end);
        lemma_direction_unit(start, end);
    }
    let (it, dir) = start.iter_line_to(end);
    let positions = it.collect_vec();
    let count = positions.len();
    let rr = dir.rotate_right();
    let mut action_list = BuildActionList::new();
    let mut i: usize = 0;
    while i < count
        invariant
            0 <= i <= count,
            count == positions@.len(),
            positions@ == line_seq(start, dir, count as nat),
            within(start, 0x3002),
            within(end, 0x3002),
            lanes@.len() <= 8,
            dir == spec_direction_to(start, end),
            -1 <= dir.x <= 1,
            -1 <= dir.y <= 1,
            dir.z == 0,
            rr == dir.spec_rotate_right(),
            count == line_count(start, end, dir),
            action_list.list@ == plan_rows(lanes@, start, dir, count as int, height, i as int),
        decreases count - i,
    {
        let mut pos = positions[i];
        proof {
            lemma_line_within(start, end, i as int, 0x3002);
        }
        let ghost p_i = offset(start, dir, i as int);
        let mut l: usize = 0;
        let ghost base = action_list.list@;
        assert(pos == offset(p_i, rr, 0));
        while l < lanes.len()
            invariant
                0 <= l <= lanes@.len() <= 8,
                0 <= i < count,
                p_i == offset(start, dir, i as int),
                pos == offset(p_i, rr, l as int),
                within(p_i, 0x3002),
                -1 <= dir.x <= 1,
                -1 <= dir.y <= 1,
                dir.z == 0,
                rr == dir.spec_rotate_right(),
                action_list.list@ == base + lane_roads(lanes@, p_i, dir, i as int, count as int, height).take(
                    l as int,
                ),
            decreases lanes@.len() - l,
        {
            proof {
                lemma_lane_fits(p_i, rr, l as int);
                lemma_lane_fits(p_i, rr, (l + 1) as int);
            }
            lanes[l].build(&mut action_list, pos, dir, i, count, height);
            proof {
                lemma_offset_step(p_i, rr, l as int);
            }
            pos = pos + rr;
            l = l + 1;
            assert(action_list.list@ =~= base + lane_roads(lanes@, p_i, dir, i as int, count as int, height).take(
                l as int,
            ));
        }
        assert(lane_roads(lanes@, p_i, dir, i as int, count as int, height).take(lanes@.len() as int)
            =~= lane_roads(lanes@, p_i, dir, i as int, count as int, height));
        i = i + 1;
    }
    action_list
}

/// The roads to build from `start` to `end` (see `road_plan`).
pub fn action_build_road(start: Position, end: Position, options: RoadBuildOption) -> (r: BuildActionList)
    requires
        buildable(start),
        buildable(end),
        options.lanes@.len() <= 8,
    ensures
        r.list@ == road_plan(start, end, options.lanes@, options.height),
{
    let dir = start.direction_to(end);
    proof {
        lemma_direction_unit(start, end);
    }
    let op_dir = dir.inverse();
    if start == end {
        let mut action_list = BuildActionList::new();
        let square = Direction::square();
        let mut k: usize = 0;
        while k < 4
            invariant
                0 <= k <= 4,
                square@ == spec_square(),
                buildable(start),
                action_list.list@ == spec_square().take(k as int).map_values(
                    |d: Direction| road_at(plus(start, d), Direction::none()),
                ),
            decreases 4 - k,
        {
            action_list.append(BuildRoad::new(start + square[k], Direction::none()));
            k = k + 1;
            assert(action_list.list@ =~= spec_square().take(k as int).map_values(
                |d: Direction| road_at(plus(start, d), Direction::none()),
            ));
        }
        assert(spec_square().take(4) =~= spec_square());
        return action_list;
    }
    let start = start.round_to(2).corner_pos(dir);
    let end = end.round_to(2).corner_pos(op_dir);
    plan_line(start, end, &options.lanes, options.height)
}

/// A two-way road from `start_pos` to `end_pos`.
pub fn action_two_way_road(start_pos: Position, end_pos: Position) -> (r: BuildActionList)
    requires
        buildable(start_pos),
        buildable(end_pos),
    ensures
        r.list@ == road_plan(
            start_pos,
            end_pos,
            seq![BuildRoadLane { dir: BuildRoadDir::Backward }, BuildRoadLane { dir: BuildRoadDir::Forward }],
            BuildRoadHeight::Level,
        ),
{
    let options = RoadBuildOption { height: BuildRoadHeight::Level, lanes: two_way_road_lanes() };
    action_build_road(start_pos, end_pos, options)
}

/// A one-way road from `pos` to `end_pos`.
pub fn action_one_way_road(pos: Position, end_pos: Position) -> (r: BuildActionList)
    requires
        buildable(pos),
        buildable(end_pos),
    ensures
        r.list@ == road_plan(
            pos,
            end_pos,
            seq![BuildRoadLane { dir: BuildRoadDir::Forward }, BuildRoadLane { dir: BuildRoadDir::Forward }],
            BuildRoadHeight::Level,
        ),
{
    let options = RoadBuildOption { height: BuildRoadHeight::Level, lanes: one_way_road_lanes() };
    action_build_road(pos, end_pos, options)
}

/// A station: its building and the 2x2 block of station roads under it.
pub struct BuildActionStation {
    pub road_actions: BuildActionList,
    pub building: Building,
    pub building_id: Id,
}

impl BuildActionStation {
    /// A station at `pos` (rounded down to even coordinates) under a newly
    /// reserved building id.
    pub fn new(map: &mut GameMap, pos: Position, building: Building) -> (r: Self)
        requires
            old(map).grid.buildings.id < Id::MAX,
        ensures
            r.building == building,
            r.building_id == old(map).grid.buildings.id,
            r.road_actions.list@ == spec_square().map_values(
                |d: Direction| BuildRoad {
                    pos: plus(pos.round_to_spec(2), d),
                    dir: Direction::none(),
                    was_empty: false,
                    was_already: false,
                    station: Some(old(map).grid.buildings.id),
                },
            ),
            final(map).grid.buildings.id == old(map).grid.buildings.id + 1,
            final(map).grid.buildings@ == old(map).grid.buildings@,
            final(map).grid@ == old(map).grid@,
            final(map).cities == old(map).cities,
            final(map).vehicles == old(map).vehicles,
            final(map).metadata == old(map).metadata,
            final(map).tick == old(map).tick,
            old(map).wf() ==> final(map).wf(),
    {
        let pos = pos.round_to(2);
        let building_id = map.reserve_building_id();
        let square = Direction::square();
        let mut roads: Vec<BuildRoad> = Vec::new();
        let mut k: usize = 0;
        while k < 4
            invariant
                0 <= k <= 4,
                square@ == spec_square(),
                pos.x < i16::MAX,
                pos.y < i16::MAX,
                roads@ == spec_square().take(k as int).map_values(
                    |d: Direction| BuildRoad {
                        pos: plus(pos, d),
                        dir: Direction::none(),
                        was_empty: false,
                        was_already: false,
                        station: Some(building_id),
                    },
                ),
            decreases 4 - k,
        {
            roads.push(BuildRoad::new_station(pos + square[k], Direction::none(), Some(building_id)));
            k = k + 1;
            assert(roads@ =~= spec_square().take(k as int).map_values(
                |d: Direction| BuildRoad {
                    pos: plus(pos, d),
                    dir: Direction::none(),
                    was_empty: false,
                    was_already: false,
                    station: Some(building_id),
                },
            ));
        }
        assert(spec_square().take(4) =~= spec_square());
        Self { road_actions: BuildActionList::new_from_vec(roads), building, building_id }
    }

    /// Puts the building on the map, then builds the station roads.
    pub fn execute(&mut self, map: &mut GameMap) -> (r: BuildResult)
        requires
            old(map).grid.wf(),
        ensures
            final(map).grid.wf(),
            final(self).building == old(self).building,
            final(self).building_id == old(self).building_id,
            final(map).grid.buildings@ == old(map).grid.buildings@.insert(old(self).building_id, old(self).building),
            (r, final(map).grid@, final(self).road_actions.list@) == roads_exec_from(
                old(map).grid@,
                old(self).road_actions.list@,
                0,
            ),
            final(map).grid.buildings.id == old(map).grid.buildings.id,
            final(map).cities.id == old(map).cities.id,
            final(map).cities@.dom() == old(map).cities@.dom(),
            old(map).cities@.contains_key(old(self).building.city_id) ==> final(map).cities@[old(self).building.city_id].houses@
                == old(map).cities@[old(self).building.city_id].houses@.push(old(self).building_id),
            final(map).vehicles == old(map).vehicles,
            final(map).metadata == old(map).metadata,
            final(map).tick == old(map).tick,
            old(map).wf() && old(map).cities@.contains_key(old(self).building.city_id) && placed(old(self).building)
                ==> final(map).wf(),
    {
        map.insert_building(self.building_id, self.building);
        self.road_actions.execute(map)
    }

    /// Takes the building off the map, then undoes the station roads.
    pub fn undo(&mut self, map: &mut GameMap) -> (r: BuildResult)
        requires
            old(map).grid.wf(),
        ensures
            final(map).grid.wf(),
            final(self).building == old(self).building,
            final(self).building_id == old(self).building_id,
            final(map).grid.buildings@ == old(map).grid.buildings@.remove(old(self).building_id),
            (r, final(map).grid@, final(self).road_actions.list@) == roads_unexec_from(
                old(map).grid@,
                old(self).road_actions.list@,
                0,
            ),
            final(map).grid.buildings.id == old(map).grid.buildings.id,
            final(map).vehicles == old(map).vehicles,
            final(map).metadata == old(map).metadata,
            final(map).tick == old(map).tick,
            old(map).wf() ==> final(map).wf(),
    {
        map.remove_building(&self.building_id);
        self.road_actions.undo(map)
    }
}

/// Any build action that the build history keeps.
pub enum BuildAction {
    Road(BuildRoad),
    ClearTile(BuildActionClearTile),
    ClearArea(BuildActionClearArea),
    List(BuildActionList),
    Station(BuildActionStation),
    Building(BuildActionBuilding),
}

/// How carrying out action `a0` on map `m0` relates to the action `a1` and
/// map `m1` after it and the answer `r`, kind by kind.
pub open spec fn executed(a0: BuildAction, a1: BuildAction, m0: GameMap, m1: GameMap, r: BuildResult) -> bool {
    match a0 {
        BuildAction::Road(a) => a1 matches BuildAction::Road(b) && (r, m1.grid@, b) == spec_build_road(m0.grid@, a)
            && m1.grid.buildings == m0.grid.buildings && m1.cities == m0.cities,
        BuildAction::ClearTile(a) => a1 matches BuildAction::ClearTile(b) && (r, m1.grid@, saved_tile(b))
            == spec_clear_tile(m0.grid@, a.pos, m0.metadata.is_level, saved_tile(a)) && b.pos
            == a.pos && m1.grid.buildings == m0.grid.buildings && m1.cities == m0.cities,
        BuildAction::ClearArea(a) => a1 matches BuildAction::ClearArea(b) && b.positions() == a.positions()
            && (r, m1.grid@, b.saved()) == clear_tiles_from(
            m0.grid@,
            a.positions(),
            m0.metadata.is_level,
            a.saved(),
            0,
        ),
        BuildAction::List(a) => a1 matches BuildAction::List(b) && (r, m1.grid@, b.list@) == roads_exec_from(
            m0.grid@,
            a.list@,
            0,
        ) && m1.grid.buildings == m0.grid.buildings && m1.cities == m0.cities,
        BuildAction::Station(a) => a1 matches BuildAction::Station(b) && (r, m1.grid@, b.road_actions.list@)
            == roads_exec_from(m0.grid@, a.road_actions.list@, 0) && m1.grid.buildings@
            == m0.grid.buildings@.insert(a.building_id, a.building),
        BuildAction::Building(a) => a1 matches BuildAction::Building(b) && b.building == a.building && (
        r,
        m1.grid@,
        ) == mark_block(m0.grid@, a.building.pos, m0.grid.buildings.id, 0)
            && m1.grid.buildings@ == m0.grid.buildings@.insert(
            m0.grid.buildings.id,
            a.building,
        ),
    }
}

/// How undoing action `a0` on map `m0` relates to the action `a1` and map
/// `m1` after it and the answer `r`, kind by kind.
pub open spec fn undone(a0: BuildAction, a1: BuildAction, m0: GameMap, m1: GameMap, r: BuildResult) -> bool {
    match a0 {
        BuildAction::Road(a) => a1 matches BuildAction::Road(b) && (r, m1.grid@) == spec_unbuild_road(m0.grid@, a)
            && b == a && m1.grid.buildings == m0.grid.buildings && m1.cities == m0.cities,
        BuildAction::ClearTile(a) => a1 matches BuildAction::ClearTile(b) && (r, m1.grid@, saved_tile(b))
            == spec_unclear_tile(m0.grid@, a.pos, saved_tile(a)) && b.pos == a.pos
            && m1.grid.buildings == m0.grid.buildings && m1.cities == m0.cities,
        BuildAction::ClearArea(a) => a1 matches BuildAction::ClearArea(b) && b.positions() == a.positions()
            && b.old_building == a.old_building && (r, m1.grid@, b.saved()) == unclear_tiles_from(
            m0.grid@,
            a.positions(),
            a.saved(),
            0,
        ),
        BuildAction::List(a) => a1 matches BuildAction::List(b) && (r, m1.grid@, b.list@) == roads_unexec_from(
            m0.grid@,
            a.list@,
            0,
        ) && m1.grid.buildings == m0.grid.buildings && m1.cities == m0.cities,
        BuildAction::Station(a) => a1 matches BuildAction::Station(b) && (r, m1.grid@, b.road_actions.list@)
            == roads_unexec_from(m0.grid@, a.road_actions.list@, 0) && m1.grid.buildings@
            == m0.grid.buildings@.remove(a.building_id),
        BuildAction::Building(a) => a1 matches BuildAction::Building(b) && b.building == a.building && r is Ok
            && m1.grid@ == clear_block(m0.grid@, a.building.pos, 0),
    }
}

impl BuildAction {
    /// The kind's own invariant: kept tiles are well formed, a clear area has
    /// its four clear actions, a building stands away from the `i16` edge.
    pub open spec fn wf(&self) -> bool {
        match self {
            BuildAction::ClearTile(a) => a.wf(),
            BuildAction::ClearArea(a) => a.wf(),
            BuildAction::Building(a) => a.building.pos.x < i16::MAX && a.building.pos.y < i16::MAX,
            _ => true,
        }
    }

    /// What the action needs of the map to be carried out.
    pub open spec fn can_execute(&self, map: GameMap) -> bool {
        &&& map.grid.wf()
        &&& self.wf()
        &&& self is Building ==> map.grid.buildings.id < Id::MAX
    }

    /// Carrying the action out on a well-formed map leaves it well formed:
    /// every kind but a station, a building only when its city exists and it
    /// is placed.
    pub open spec fn keeps_map_wf(&self, map: GameMap) -> bool {
        match self {
            BuildAction::Station(_) => false,
            BuildAction::Building(a) => map.cities@.contains_key(a.building.city_id) && placed(a.building),
            _ => true,
        }
    }

    /// Undoing the action on a well-formed map leaves it well formed: every
    /// kind but a station and a cleared area.
    pub open spec fn undo_keeps_map_wf(&self) -> bool {
        !(self is Station) && !(self is ClearArea)
    }

    /// What the action needs of the map to be undone.
    pub open spec fn can_undo(&self, map: GameMap) -> bool {
        &&& map.grid.wf()
        &&& self.wf()
        &&& self matches BuildAction::Building(a) ==> block_on_grid(map.grid@, a.building.pos)
    }

    /// Carries the action out; each kind as its own `execute` says.
    pub fn execute(&mut self, map: &mut GameMap) -> (r: BuildResult)
        requires
            old(self).can_execute(*old(map)),
        ensures
            final(map).grid.wf(),
            final(self).wf(),
            final(map).vehicles == old(map).vehicles,
            final(map).metadata == old(map).metadata,
            final(map).tick == old(map).tick,
            executed(*old(self), *final(self), *old(map), *final(map), r),
            old(map).wf() && old(self).keeps_map_wf(*old(map)) ==> final(map).wf(),
    {
        match self {
            BuildAction::Road(a) => a.execute(map),
            BuildAction::ClearTile(a) => a.execute(map),
            BuildAction::ClearArea(a) => a.execute(map),
            BuildAction::List(a) => a.execute(map),
            BuildAction::Station(a) => a.execute(map),
            BuildAction::Building(a) => a.execute(map),
        }
    }

    /// Undoes the action; each kind as its own `undo` says.
    pub fn undo(&mut self, map: &mut GameMap) -> (r: BuildResult)
        requires
            old(self).can_undo(*old(map)),
        ensures
            final(map).grid.wf(),
            final(self).wf(),
            final(map).vehicles == old(map).vehicles,
            final(map).metadata == old(map).metadata,
            final(map).tick == old(map).tick,
            undone(*old(self), *final(self), *old(map), *final(map), r),
            old(map).wf() && old(self).undo_keeps_map_wf() ==> final(map).wf(),
    {
        match self {
            BuildAction::Road(a) => a.undo(map),
            BuildAction::ClearTile(a) => a.undo(map),
            BuildAction::ClearArea(a) => a.undo(map),
            BuildAction::List(a) => a.undo(map),
            BuildAction::Station(a) => a.undo(map),
            BuildAction::Building(a) => a.undo(map),
        }
    }
}

/// A grid obtained by replacing one tile of a grid within the route bounds
/// is within the route bounds too.
proof fn lemma_set_tile_bounds_if(
    g0: Seq<Seq<(TileView, TileView)>>,
    pos: Position,
    g1: Seq<Seq<(TileView, TileView)>>,
)
    requires
        spec_tile_at(g0, pos) is Some,
        exists|t: TileView| g1 == spec_set_tile(g0, pos, t),
    ensures
        super::grid::within_route_bounds(g0) ==> super::grid::within_route_bounds(g1),
{
    let t = choose|t: TileView| g1 == spec_set_tile(g0, pos, t);
    if super::grid::within_route_bounds(g0) {
        lemma_set_tile_bounds(g0, pos, t);
    }
}

impl Grid {
    /// `Ok` when the tile at `pos` is empty.
    pub fn is_pos_clear(&self, pos: &Position) -> (r: BuildResult)
        ensures
            r == pos_clear(self@, *pos),
    {
        match self.get_tile(pos) {
            None => Err(BuildError::InvalidTile),
            Some(tile) => match tile {
                Tile::Empty => Ok(()),
                _ => Err(BuildError::OccupiedTile),
            },
        }
    }

    /// `Ok` when every tile of the `size.0` by `size.1` area at `pos` is empty;
    /// otherwise the answer for the first tile that is not, column by column.
    pub fn is_area_clear(&self, pos: &Position, size: (i8, i8)) -> (r: BuildResult)
        requires
            area_fits_i16(*pos, size),
        ensures
            r == area_clear(self@, *pos, size),
    {
        let mut x: i8 = 0;
        while x < size.0
            invariant
                0 <= x,
                size.0 > 0 ==> x <= size.0,
                area_fits_i16(*pos, size),
                area_clear_from(self@, *pos, size.0 as int, size.1 as int, 0) == area_clear_from(
                    self@,
                    *pos,
                    size.0 as int,
                    size.1 as int,
                    x as int,
                ),
            decreases size.0 - x,
        {
            let mut y: i8 = 0;
            while y < size.1
                invariant
                    0 <= x < size.0,
                    0 <= y,
                    size.1 > 0 ==> y <= size.1,
                    area_fits_i16(*pos, size),
                    area_clear_from(self@, *pos, size.0 as int, size.1 as int, 0) == area_clear_from(
                        self@,
                        *pos,
                        size.0 as int,
                        size.1 as int,
                        x as int,
                    ),
                    column_clear(self@, *pos, x as int, size.1 as int, 0) == column_clear(
                        self@,
                        *pos,
                        x as int,
                        size.1 as int,
                        y as int,
                    ),
                decreases size.1 - y,
            {
                let p = *pos + Direction::new(x, y, 0);
                assert(p == shifted(*pos, x as int, y as int));
                match self.is_pos_clear(&p) {
                    Ok(()) => {},
                    Err(e) => {
                        return Err(e);
                    },
                }
                y = y + 1;
            }
            x = x + 1;
        }
        Ok(())
    }
}

} // verus!
