use vstd::prelude::*;

use crate::map::grid::{spec_tile_at, Grid};
use crate::map::position::{plus, Position};
use crate::map::tile::road::Road;
use crate::map::tile::{Tile, TileView};
use crate::map::Direction;
use crate::tileset::Sprite;

verus! {

/// A picture drawn over a tile: the sprite, the direction it is turned
/// towards (no direction: not turned), and whether it is mirrored.
#[derive(Clone, Copy, PartialEq, Eq, Structural, Debug)]
pub struct SpriteLayer {
    pub sprite: Sprite,
    pub dir: Direction,
    pub flip: bool,
}

/// The one-tile road picture in row 3, column `col`, turned towards `dir`.
pub open spec fn road_layer(col: u8, dir: Direction, flip: bool) -> SpriteLayer {
    SpriteLayer { sprite: Sprite { row: 3, col, size: Direction { x: 1, y: 1, z: 0 } }, dir, flip }
}

/// The way a road with at most one connection runs: its connection on the
/// ground plane, or no direction.
pub open spec fn road_dir(conns: Seq<Direction>) -> Direction {
    if conns.len() > 0 {
        Direction { x: conns[0].x, y: conns[0].y, z: 0 }
    } else {
        Direction { x: 0, y: 0, z: 0 }
    }
}

/// The edge picture towards a side neighbour `t` of a road running `dir`:
/// a lane the same way (column 4), the other way (column 5), or a plain edge
/// (column 6) next to anything else, an intersection included.
pub open spec fn side_col(t: Option<TileView>, dir: Direction) -> u8 {
    match t {
        Some(TileView::Road(r)) => if r.connections.len() as u32 > 1 {
            6
        } else if r.connections.contains(dir) {
            4
        } else if r.connections.contains(dir.spec_inverse()) {
            5
        } else {
            6
        },
        _ => 6,
    }
}

/// The pictures of a road with connections `conns` at `pos` of grid `g`, in
/// drawing order. An intersection: the plain road, then an arrow for each
/// connection. Otherwise, for the way `dir` it runs: the road turned towards
/// `dir`; its back edge (joined when the tile behind is a ramp or a road
/// leading here, else plain); a stop line when the tile ahead is an
/// intersection; and the left and (mirrored) right edges after the side neighbours.
pub open spec fn spec_road_sprites(conns: Seq<Direction>, g: Seq<Seq<(TileView, TileView)>>, pos: Position) -> Seq<
    SpriteLayer,
> {
    if conns.len() as u32 > 1 {
        seq![road_layer(0, Direction { x: 0, y: 0, z: 0 }, false)] + conns.map_values(
            |d: Direction| road_layer(1, d, false),
        )
    } else {
        let dir = road_dir(conns);
        let behind = match spec_tile_at(g, plus(pos, dir.spec_inverse())) {
            Some(TileView::Road(r)) => r.connections.contains(dir),
            Some(TileView::Ramp(_)) => true,
            _ => false,
        };
        let ahead = match spec_tile_at(g, plus(pos, dir)) {
            Some(TileView::Road(r)) => r.connections.len() as u32 > 1,
            _ => false,
        };
        seq![
            road_layer(0, dir, false),
            road_layer(if behind { 3 } else { 6 }, dir.spec_rotate_left(), false),
        ] + (if ahead {
            seq![road_layer(5, dir.spec_rotate_right(), false)]
        } else {
            seq![]
        }) + seq![
            road_layer(side_col(spec_tile_at(g, plus(pos, dir.spec_rotate_left())), dir), dir, false),
            road_layer(side_col(spec_tile_at(g, plus(pos, dir.spec_rotate_right())), dir), dir, true),
        ]
    }
}

/// What `road_sprites` needs: the tile is on the grid's side of the `i16`
/// range, and the way its first connection runs can be turned and reversed.
pub open spec fn road_sprites_fit(road: Road, pos: Position) -> bool {
    &&& 0 <= pos.x <= 0x1000
    &&& 0 <= pos.y <= 0x1000
    &&& road.connections().len() > 0 ==> road.connections()[0].x != i8::MIN && road.connections()[0].y != i8::MIN
}

fn road_sprite(col: u8, dir: Direction, flip: bool) -> (r: SpriteLayer)
    ensures
        r == road_layer(col, dir, flip),
{
    SpriteLayer { sprite: Sprite::new(3, col), dir, flip }
}

/// The edge picture towards the side neighbour at `pos` (see `side_col`).
fn side_sprite(grid: &Grid, pos: Position, dir: Direction, flip: bool) -> (r: SpriteLayer)
    requires
        dir.x != i8::MIN,
        dir.y != i8::MIN,
    ensures
        r == road_layer(side_col(grid.tile_at(pos), dir), dir, flip),
{
    let col: u8 = match grid.get_tile(&pos) {
        Some(Tile::Road(r)) => if r.connection_count() > 1 {
            6
        } else if r.is_connected(dir) {
            4
        } else if r.is_connected(dir.inverse()) {
            5
        } else {
            6
        },
        _ => 6,
    };
    road_sprite(col, dir, flip)
}

/// The pictures to draw for `road` at `pos` of `grid` (see `spec_road_sprites`).
pub fn road_sprites(road: &Road, pos: Position, grid: &Grid) -> (r: Vec<SpriteLayer>)
    requires
        road_sprites_fit(*road, pos),
    ensures
        r@ == spec_road_sprites(road.connections(), grid@, pos),
{
    let mut out: Vec<SpriteLayer> = Vec::new();
    if road.connection_count() > 1 {
        out.push(road_sprite(0, Direction::new(0, 0, 0), false));
        let mut i: usize = 0;
        while i < road.connections.len()
            invariant
                0 <= i <= road.connections@.len(),
                out@ == seq![road_layer(0, Direction { x: 0, y: 0, z: 0 }, false)] + road.connections@.take(
                    i as int,
                ).map_values(|d: Direction| road_layer(1, d, false)),
            decreases road.connections@.len() - i,
        {
            out.push(road_sprite(1, road.connections[i], false));
            assert(road.connections@.take(i + 1) =~= road.connections@.take(i as int).push(road.connections@[i as int]));
            i = i + 1;
        }
        assert(road.connections@.take(road.connections@.len() as int) =~= road.connections@);
        return out;
    }
    let dir = if road.connections.len() > 0 {
        let d = road.connections[0];
        Direction::new(d.x, d.y, 0)
    } else {
        Direction::new(0, 0, 0)
    };
    let behind = match grid.get_tile(&(pos + dir.inverse())) {
        Some(Tile::Road(r)) => r.is_connected(dir),
        Some(Tile::Ramp(_)) => true,
        _ => false,
    };
    out.push(road_sprite(0, dir, false));
    out.push(road_sprite(if behind { 3 } else { 6 }, dir.rotate_left(), false));
    let ahead = match grid.get_tile(&(pos + dir)) {
        Some(Tile::Road(r)) => r.connection_count() > 1,
        _ => false,
    };
    if ahead {
        out.push(road_sprite(5, dir.rotate_right(), false));
    }
    out.push(side_sprite(grid, pos + dir.rotate_left(), dir, false));
    out.push(side_sprite(grid, pos + dir.rotate_right(), dir, true));
    out
}

} // verus!
