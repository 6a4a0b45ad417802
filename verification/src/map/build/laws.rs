use vstd::prelude::*;

use crate::map::grid::{lemma_set_tile_at, spec_set_tile, spec_tile_at, within_route_bounds};
use crate::map::direction::Direction;
use crate::map::position::{offset, spec_corner_pos, spec_direction_to, Position};
use crate::map::tile::TileView;
use super::{
    buildable, lane_road, lane_roads, lemma_build_road_undo, plan_rows, road_plan, road_view_wf, roads_exec_from,
    roads_unexec_from, spec_build_road, spec_unbuild_road, BuildRoad, BuildRoadHeight, BuildRoadLane,
};

verus! {

/// No two of the roads share a tile.
pub open spec fn distinct_positions(acts: Seq<BuildRoad>) -> bool {
    forall|j: int, k: int| 0 <= j < k < acts.len() ==> (#[trigger] acts[j]).pos != (#[trigger] acts[k]).pos
}

/// `q` is the tile of one of the roads from the `i`-th on.
pub open spec fn later_position(acts: Seq<BuildRoad>, i: int, q: Position) -> bool {
    exists|j: int| i <= j < acts.len() && #[trigger] acts[j].pos == q
}

/// Each road of `acts` can be undone back to what stood on `g`: its tile is
/// empty ground or a well-formed road whose station it keeps.
pub open spec fn undoable_on(g: Seq<Seq<(TileView, TileView)>>, acts: Seq<BuildRoad>) -> bool {
    forall|j: int|
        0 <= j < acts.len() ==> (spec_tile_at(g, #[trigger] acts[j].pos) matches Some(TileView::Road(r))
            ==> road_view_wf(r) && (acts[j].station is None || acts[j].station == r.station))
}

/// Two grids of the same shape with the same tiles everywhere are equal.
pub proof fn lemma_grid_ext(g1: Seq<Seq<(TileView, TileView)>>, g2: Seq<Seq<(TileView, TileView)>>)
    requires
        within_route_bounds(g1),
        g1.len() == g2.len(),
        forall|y: int| 0 <= y < g1.len() ==> #[trigger] g1[y].len() == g2[y].len(),
        forall|q: Position| #[trigger] spec_tile_at(g1, q) == spec_tile_at(g2, q),
    ensures
        g1 == g2,
{
    assert forall|y: int| 0 <= y < g1.len() implies #[trigger] g1[y] =~= g2[y] by {
        assert(g1[y].len() <= 0x1000);
        assert forall|x: int| 0 <= x < g1[y].len() implies g1[y][x] == g2[y][x] by {
            let q0 = Position { x: x as i16, y: y as i16, z: 0 };
            let q1 = Position { x: x as i16, y: y as i16, z: 1 };
            assert(spec_tile_at(g1, q0) == spec_tile_at(g2, q0));
            assert(spec_tile_at(g1, q1) == spec_tile_at(g2, q1));
        }
    }
    assert(g1 =~= g2);
}

/// Building a road depends on the grid only through the road's tile: on a
/// grid with the same tile there, the answer and the remembered state are the
/// same, the road's tile becomes the same, and no other tile changes.
proof fn lemma_build_local(h: Seq<Seq<(TileView, TileView)>>, g: Seq<Seq<(TileView, TileView)>>, a: BuildRoad)
    requires
        spec_tile_at(h, a.pos) == spec_tile_at(g, a.pos),
    ensures
        spec_build_road(h, a).0 == spec_build_road(g, a).0,
        spec_build_road(h, a).2 == spec_build_road(g, a).2,
        spec_build_road(h, a).2.pos == a.pos,
        spec_build_road(h, a).2.dir == a.dir,
        spec_build_road(h, a).2.station == a.station,
        forall|q: Position| #[trigger]
            spec_tile_at(spec_build_road(h, a).1, q) == (if q == a.pos {
                spec_tile_at(spec_build_road(g, a).1, a.pos)
            } else {
                spec_tile_at(h, q)
            }),
        spec_build_road(h, a).1.len() == h.len(),
        forall|y: int| 0 <= y < h.len() ==> #[trigger] spec_build_road(h, a).1[y].len() == h[y].len(),
{
    if let Some(t) = spec_tile_at(h, a.pos) {
        if let Ok(nt) = super::road_on_tile(t, a.dir, a.station) {
            assert forall|q: Position| #[trigger] spec_tile_at(spec_build_road(h, a).1, q) == (if q == a.pos {
                spec_tile_at(spec_build_road(g, a).1, a.pos)
            } else {
                spec_tile_at(h, q)
            }) by {
                lemma_set_tile_at(h, a.pos, nt, q);
                lemma_set_tile_at(g, a.pos, nt, a.pos);
            }
            lemma_set_tile_at(h, a.pos, nt, a.pos);
        }
    }
}

/// Undoing a road depends on the grid only through the road's tile, in the
/// same way.
proof fn lemma_unbuild_local(h: Seq<Seq<(TileView, TileView)>>, g: Seq<Seq<(TileView, TileView)>>, a: BuildRoad)
    requires
        spec_tile_at(h, a.pos) == spec_tile_at(g, a.pos),
    ensures
        spec_unbuild_road(h, a).0 == spec_unbuild_road(g, a).0,
        forall|q: Position| #[trigger]
            spec_tile_at(spec_unbuild_road(h, a).1, q) == (if q == a.pos {
                spec_tile_at(spec_unbuild_road(g, a).1, a.pos)
            } else {
                spec_tile_at(h, q)
            }),
        spec_unbuild_road(h, a).1.len() == h.len(),
        forall|y: int| 0 <= y < h.len() ==> #[trigger] spec_unbuild_road(h, a).1[y].len() == h[y].len(),
{
    if let Some(t) = spec_tile_at(h, a.pos) {
        assert forall|q: Position| #[trigger] spec_tile_at(spec_unbuild_road(h, a).1, q) == (if q == a.pos {
            spec_tile_at(spec_unbuild_road(g, a).1, a.pos)
        } else {
            spec_tile_at(h, q)
        }) by {
            if a.was_empty {
                lemma_set_tile_at(h, a.pos, TileView::Empty, q);
                lemma_set_tile_at(g, a.pos, TileView::Empty, a.pos);
            } else if let TileView::Road(r) = t {
                if !a.was_already {
                    let nt = TileView::Road(
                        crate::map::tile::RoadView {
                            connections: crate::map::tile::road::disconnected(r.connections, a.dir),
                            ..r
                        },
                    );
                    lemma_set_tile_at(h, a.pos, nt, q);
                    lemma_set_tile_at(g, a.pos, nt, a.pos);
                }
            }
        }
        if a.was_empty {
            lemma_set_tile_at(h, a.pos, TileView::Empty, a.pos);
        } else if let TileView::Road(r) = t {
            if !a.was_already {
                let nt = TileView::Road(
                    crate::map::tile::RoadView {
                        connections: crate::map::tile::road::disconnected(r.connections, a.dir),
                        ..r
                    },
                );
                lemma_set_tile_at(h, a.pos, nt, a.pos);
            }
        }
    }
}

/// What building the roads from the `i`-th on did, when it succeeded: each
/// road was built as on `g` itself (their tiles being distinct), and tiles
/// of no road kept their value.
proof fn lemma_exec_frame(g: Seq<Seq<(TileView, TileView)>>, acts: Seq<BuildRoad>, i: int)
    requires
        0 <= i <= acts.len(),
        distinct_positions(acts),
        roads_exec_from(g, acts, i).0 is Ok,
    ensures
        ({
            let (_, g2, a2) = roads_exec_from(g, acts, i);
            &&& g2.len() == g.len()
            &&& forall|y: int| 0 <= y < g.len() ==> #[trigger] g2[y].len() == g[y].len()
            &&& forall|q: Position| !later_position(acts, i, q) ==> #[trigger] spec_tile_at(g2, q) == spec_tile_at(g, q)
            &&& a2.len() == acts.len()
            &&& forall|j: int| 0 <= j < i ==> #[trigger] a2[j] == acts[j]
            &&& forall|j: int|
                i <= j < acts.len() ==> {
                    &&& spec_build_road(g, #[trigger] acts[j]).0 is Ok
                    &&& a2[j] == spec_build_road(g, acts[j]).2
                    &&& spec_tile_at(g2, acts[j].pos) == spec_tile_at(spec_build_road(g, acts[j]).1, acts[j].pos)
                }
        }),
    decreases acts.len() - i,
{
    if i < acts.len() {
        let a = acts[i];
        let (r, g1, a1) = spec_build_road(g, a);
        lemma_build_local(g, g, a);
        let acts1 = acts.update(i, a1);
        assert(distinct_positions(acts1)) by {
            assert forall|j: int, k: int| 0 <= j < k < acts1.len() implies (#[trigger] acts1[j]).pos
                != (#[trigger] acts1[k]).pos by {
                assert(acts1[j].pos == acts[j].pos);
                assert(acts1[k].pos == acts[k].pos);
            }
        }
        lemma_exec_frame(g1, acts1, i + 1);
        let (_, g2, a2) = roads_exec_from(g1, acts1, i + 1);
        assert(roads_exec_from(g, acts, i) == roads_exec_from(g1, acts1, i + 1));
        assert forall|q: Position| !later_position(acts, i, q) implies #[trigger] spec_tile_at(g2, q) == spec_tile_at(
            g,
            q,
        ) by {
            if later_position(acts1, i + 1, q) {
                let j = choose|j: int| i + 1 <= j < acts1.len() && #[trigger] acts1[j].pos == q;
                assert(acts[j].pos == q);
            }
        }
        assert forall|j: int| i <= j < acts.len() implies {
            &&& spec_build_road(g, #[trigger] acts[j]).0 is Ok
            &&& a2[j] == spec_build_road(g, acts[j]).2
            &&& spec_tile_at(g2, acts[j].pos) == spec_tile_at(spec_build_road(g, acts[j]).1, acts[j].pos)
        } by {
            if j == i {
                assert(!later_position(acts1, i + 1, a.pos)) by {
                    if later_position(acts1, i + 1, a.pos) {
                        let k = choose|k: int| i + 1 <= k < acts1.len() && #[trigger] acts1[k].pos == a.pos;
                        assert(acts[k].pos == acts[i].pos);
                    }
                }
            } else {
                assert(acts1[j] == acts[j]);
                assert(acts[j].pos != a.pos);
                lemma_build_local(g1, g, acts[j]);
                lemma_build_local(g, g, acts[j]);
            }
        }
    }
}

/// Undoing roads from the `i`-th on, on a grid `h` whose road tiles hold what
/// building them on `g` made, when each can be undone back to `g`: the undo
/// succeeds, gives each road tile back its value on `g`, and changes no other tile.
proof fn lemma_unexec_back(
    h: Seq<Seq<(TileView, TileView)>>,
    g: Seq<Seq<(TileView, TileView)>>,
    orig: Seq<BuildRoad>,
    acts: Seq<BuildRoad>,
    i: int,
)
    requires
        0 <= i <= acts.len(),
        orig.len() == acts.len(),
        distinct_positions(acts),
        undoable_on(g, orig),
        forall|j: int|
            i <= j < acts.len() ==> {
                &&& spec_build_road(g, #[trigger] orig[j]).0 is Ok
                &&& acts[j] == spec_build_road(g, orig[j]).2
                &&& spec_tile_at(h, acts[j].pos) == spec_tile_at(spec_build_road(g, orig[j]).1, acts[j].pos)
            },
        forall|j: int| 0 <= j < acts.len() ==> #[trigger] acts[j].pos == orig[j].pos,
    ensures
        ({
            let (r, h2, a3) = roads_unexec_from(h, acts, i);
            &&& r is Ok
            &&& a3 == acts
            &&& h2.len() == h.len()
            &&& forall|y: int| 0 <= y < h.len() ==> #[trigger] h2[y].len() == h[y].len()
            &&& forall|q: Position| !later_position(acts, i, q) ==> #[trigger] spec_tile_at(h2, q) == spec_tile_at(h, q)
            &&& forall|j: int| i <= j < acts.len() ==> spec_tile_at(h2, #[trigger] acts[j].pos) == spec_tile_at(g, acts[j].pos)
        }),
    decreases acts.len() - i,
{
    if i < acts.len() {
        let a = acts[i];
        let o = orig[i];
        let g1 = spec_build_road(g, o).1;
        lemma_build_road_undo(g, o);
        lemma_build_local(g, g, o);
        lemma_unbuild_local(h, g1, a);
        let h1 = spec_unbuild_road(h, a).1;
        assert(spec_unbuild_road(g1, a) == (Ok::<(), super::BuildError>(()), g));
        assert forall|j: int| i + 1 <= j < acts.len() implies {
            &&& spec_build_road(g, #[trigger] orig[j]).0 is Ok
            &&& acts[j] == spec_build_road(g, orig[j]).2
            &&& spec_tile_at(h1, acts[j].pos) == spec_tile_at(spec_build_road(g, orig[j]).1, acts[j].pos)
        } by {
            assert(acts[j].pos != a.pos);
        }
        lemma_unexec_back(h1, g, orig, acts, i + 1);
        let (_, h2, _) = roads_unexec_from(h1, acts, i + 1);
        assert(roads_unexec_from(h, acts, i) == roads_unexec_from(h1, acts, i + 1));
        assert forall|q: Position| !later_position(acts, i, q) implies #[trigger] spec_tile_at(h2, q) == spec_tile_at(
            h,
            q,
        ) by {
            if later_position(acts, i + 1, q) {
                let j = choose|j: int| i + 1 <= j < acts.len() && #[trigger] acts[j].pos == q;
            }
            assert(q != a.pos);
        }
        assert forall|j: int| i <= j < acts.len() implies spec_tile_at(h2, #[trigger] acts[j].pos) == spec_tile_at(
            g,
            acts[j].pos,
        ) by {
            if j == i {
                assert(!later_position(acts, i + 1, a.pos)) by {
                    if later_position(acts, i + 1, a.pos) {
                        let k = choose|k: int| i + 1 <= k < acts.len() && #[trigger] acts[k].pos == a.pos;
                    }
                }
            }
        }
    }
}

/// Law: undoing a list of roads right after building it gives back the grid
/// as it was and the same list, when the roads stand on distinct tiles that
/// each hold empty ground or a well-formed road whose station they keep.
pub proof fn lemma_road_list_undo(g: Seq<Seq<(TileView, TileView)>>, acts: Seq<BuildRoad>)
    requires
        within_route_bounds(g),
        distinct_positions(acts),
        undoable_on(g, acts),
        roads_exec_from(g, acts, 0).0 is Ok,
    ensures
        ({
            let (_, g1, a1) = roads_exec_from(g, acts, 0);
            roads_unexec_from(g1, a1, 0) == (Ok::<(), super::BuildError>(()), g, a1)
        }),
{
    let (_, g1, a1) = roads_exec_from(g, acts, 0);
    lemma_exec_frame(g, acts, 0);
    assert forall|j: int| 0 <= j < a1.len() implies #[trigger] a1[j].pos == acts[j].pos by {
        lemma_build_local(g, g, acts[j]);
    }
    assert(distinct_positions(a1)) by {
        assert forall|j: int, k: int| 0 <= j < k < a1.len() implies (#[trigger] a1[j]).pos != (#[trigger] a1[k]).pos by {
            assert(a1[j].pos == acts[j].pos);
            assert(a1[k].pos == acts[k].pos);
        }
    }
    lemma_unexec_back(g1, g, acts, a1, 0);
    let (r3, h2, a3) = roads_unexec_from(g1, a1, 0);
    assert forall|q: Position| #[trigger] spec_tile_at(h2, q) == spec_tile_at(g, q) by {
        if later_position(a1, 0, q) {
            let j = choose|j: int| 0 <= j < a1.len() && #[trigger] a1[j].pos == q;
        } else {
            assert(!later_position(acts, 0, q)) by {
                if later_position(acts, 0, q) {
                    let j = choose|j: int| 0 <= j < acts.len() && #[trigger] acts[j].pos == q;
                    assert(a1[j].pos == q);
                }
            }
        }
    }
    assert(within_route_bounds(h2)) by {
        assert forall|y: int| 0 <= y < h2.len() implies #[trigger] h2[y].len() <= 0x1000 by {
            assert(g1[y].len() == g[y].len());
        }
    }
    lemma_grid_ext(h2, g);
    assert(r3 is Ok);
    assert(r3 == Ok::<(), super::BuildError>(r3->Ok_0));
    assert(a3 == a1);
}

/// `p` lies, on the ground plane, within the 2x2 blocks whose corners are
/// `a` and `b`, or in the rectangle between them.
pub open spec fn within_blocks(p: Position, a: Position, b: Position) -> bool {
    &&& (if a.x <= b.x { a.x } else { b.x }) <= p.x <= (if a.x <= b.x { b.x } else { a.x }) + 1
    &&& (if a.y <= b.y { a.y } else { b.y }) <= p.y <= (if a.y <= b.y { b.y } else { a.y }) + 1
}

/// The line of a drag from `start` to `end` runs the way the drag does: from
/// the corner of `start`'s block facing `end` to the corner of `end`'s block
/// facing back, the way from one corner to the other is the drag's way.
pub open spec fn drag_runs_straight(start: Position, end: Position) -> bool {
    let dir = spec_direction_to(start, end);
    let s = spec_corner_pos(start.round_to_spec(2), dir);
    let e = spec_corner_pos(end.round_to_spec(2), dir.spec_inverse());
    spec_direction_to(s, e) == dir
}

/// The `k`-th road of the first `n` rows of a plan is lane `l` of row `i`,
/// `l` steps to the right of the row's first tile.
proof fn lemma_plan_rows_element(
    lanes: Seq<BuildRoadLane>,
    s: Position,
    dir: Direction,
    count: int,
    height: BuildRoadHeight,
    n: int,
    k: int,
) -> (il: (int, int))
    requires
        0 <= k < plan_rows(lanes, s, dir, count, height, n).len(),
    ensures
        0 <= il.0 < n,
        0 <= il.1 < lanes.len(),
        plan_rows(lanes, s, dir, count, height, n)[k] == lane_road(
            lanes[il.1],
            offset(offset(s, dir, il.0), dir.spec_rotate_right(), il.1),
            dir,
            il.0,
            count,
            height,
        ),
    decreases n,
{
    let prev = plan_rows(lanes, s, dir, count, height, n - 1);
    let row = lane_roads(lanes, offset(s, dir, n - 1), dir, n - 1, count, height);
    assert(n > 0);
    assert(plan_rows(lanes, s, dir, count, height, n) == prev + row);
    if k < prev.len() {
        lemma_plan_rows_element(lanes, s, dir, count, height, n - 1, k)
    } else {
        let l = k - prev.len();
        assert(plan_rows(lanes, s, dir, count, height, n)[k] == row[l]);
        (n - 1, l)
    }
}

/// Multiplying by a unit step's component.
proof fn lemma_mul_unit(k: int, c: int)
    ensures
        c == 1 ==> k * c == k,
        c == -1 ==> k * c == -k,
        c == 0 ==> k * c == 0,
{
    assert(c == 1 ==> k * c == k) by (nonlinear_arith);
    assert(c == -1 ==> k * c == -k) by (nonlinear_arith);
    assert(c == 0 ==> k * c == 0) by (nonlinear_arith);
}

/// Law: every road of a plan dragged from `start` to `end` with at most two
/// lanes lies within the 2x2 blocks of `start` and `end` (taken to even
/// tiles) or the rectangle between them, so the lanes are laid inside the
/// blocks the drag selected. This holds for drags whose line runs the way
/// they do (see `drag_runs_straight`) and, for a drag that stays on one tile,
/// an even tile.
pub proof fn lemma_plan_within_blocks(
    start: Position,
    end: Position,
    lanes: Seq<BuildRoadLane>,
    height: BuildRoadHeight,
    k: int,
)
    requires
        buildable(start),
        buildable(end),
        lanes.len() <= 2,
        start == end ==> start.round_to_spec(2) == start,
        start != end ==> drag_runs_straight(start, end),
        0 <= k < road_plan(start, end, lanes, height).len(),
    ensures
        within_blocks(road_plan(start, end, lanes, height)[k].pos, start.round_to_spec(2), end.round_to_spec(2)),
{
    let a = start.round_to_spec(2);
    let b = end.round_to_spec(2);
    if start == end {
        assert(road_plan(start, end, lanes, height)[k].pos == crate::map::position::plus(start, crate::map::direction::spec_square()[k]));
    } else {
        let dir = spec_direction_to(start, end);
        let s = spec_corner_pos(a, dir);
        let e = spec_corner_pos(b, dir.spec_inverse());
        let count = super::line_count(s, e, dir);
        let il = lemma_plan_rows_element(lanes, s, dir, count, height, count, k);
        let (i, l) = il;
        let q = offset(offset(s, dir, i), dir.spec_rotate_right(), l);
        assert(road_plan(start, end, lanes, height)[k] == lane_road(lanes[l], q, dir, i, count, height));
        assert(road_plan(start, end, lanes, height)[k].pos.x == q.x && road_plan(start, end, lanes, height)[k].pos.y
            == q.y);
        let rr = dir.spec_rotate_right();
        lemma_mul_unit(i, dir.x as int);
        lemma_mul_unit(i, dir.y as int);
        lemma_mul_unit(i, dir.z as int);
        lemma_mul_unit(l, rr.x as int);
        lemma_mul_unit(l, rr.y as int);
        lemma_mul_unit(l, rr.z as int);
        assert(-0x3002 <= s.x <= 0x3002 && -0x3002 <= s.y <= 0x3002);
        assert(-0x3002 <= e.x <= 0x3002 && -0x3002 <= e.y <= 0x3002);
        if dir == Direction::right() {
            assert(e.x > s.x);
            assert(0 <= i < e.x - s.x + 1);
            let r1 = offset(s, dir, i);
            assert(r1.x == s.x + i && r1.y == s.y);
            assert(q.x == s.x + i && q.y == s.y + l);
        } else if dir == Direction::left() {
            assert(q.x == s.x - i && q.y == s.y - l);
        } else if dir == Direction::down() {
            assert(e.y > s.y);
            assert(0 <= i < e.y - s.y + 1);
            let r1 = offset(s, dir, i);
            assert(r1.x == s.x && r1.y == s.y + i);
            assert(q.x == s.x - l && q.y == s.y + i);
        } else if dir == Direction::up() {
            assert(q.x == s.x + l && q.y == s.y - i);
        } else {
            assert(q.x == s.x && q.y == s.y);
        }
    }
}

} // verus!
