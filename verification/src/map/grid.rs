use vstd::prelude::*;

use crate::consts::{spec_color_of_station, SpawnerColors};
use crate::hash_map_id::{HashMapId, Id};
use crate::text::{lemma_words_nonempty, split_ascii_whitespace, str_chars, words};

use super::building::{is_new_house, is_new_spawner, placed, Building};
use super::direction::Direction;
use super::path::in_route_box;
use super::position::{area_from, area_fits, lemma_area_from_bounds, lemma_area_from_increasing, before, Position};
use super::tile::{spec_tile_chars, spec_tile_from_char, Tile, TileView};
use super::DEFAULT_CITY_ID;

verus! {

/// One cell of the grid: its ground layer and the bridge layer above it.
#[derive(Clone, PartialEq, Eq, Debug)]
pub struct GridTile {
    pub ground: Tile,
    pub bridge: Tile,
}

impl GridTile {
    pub open spec fn view(&self) -> (TileView, TileView) {
        (self.ground@, self.bridge@)
    }

    pub open spec fn wf(&self) -> bool {
        self.ground.wf() && self.bridge.wf()
    }

    fn new() -> (r: Self)
        ensures
            r@ == (TileView::Empty, TileView::Empty),
            r.wf(),
    {
        GridTile { ground: Tile::new(), bridge: Tile::new() }
    }

    fn new_from_char(chr: char) -> (r: Self)
        ensures
            r@ == (spec_tile_from_char(chr), TileView::Empty),
            r.wf(),
    {
        GridTile { ground: Tile::new_from_char(chr), bridge: Tile::Empty }
    }

    fn new_from_char_layers(args: (char, char)) -> (r: Self)
        ensures
            r@ == (spec_tile_from_char(args.0), spec_tile_from_char(args.1)),
            r.wf(),
    {
        GridTile { ground: Tile::new_from_char(args.0), bridge: Tile::new_from_char(args.1) }
    }

    fn get(&self, pos_z: i16) -> (r: Option<&Tile>)
        ensures
            pos_z == 0 ==> r == Some(&self.ground),
            pos_z == 1 ==> r == Some(&self.bridge),
            pos_z != 0 && pos_z != 1 ==> r is None,
    {
        if pos_z == 0 {
            Some(&self.ground)
        } else if pos_z == 1 {
            Some(&self.bridge)
        } else {
            None
        }
    }
}

/// The tile at `pos` of a grid given by its cells' values; `None` off the grid
/// or on a layer other than the ground (0) and the bridges (1).
pub open spec fn spec_tile_at(tv: Seq<Seq<(TileView, TileView)>>, pos: Position) -> Option<
    TileView,
> {
    if 0 <= pos.y < tv.len() && 0 <= pos.x < tv[pos.y as int].len() {
        if pos.z == 0 {
            Some(tv[pos.y as int][pos.x as int].0)
        } else if pos.z == 1 {
            Some(tv[pos.y as int][pos.x as int].1)
        } else {
            None
        }
    } else {
        None
    }
}

/// The grid `tv` with the tile at `pos` (which is on the grid) replaced by `t`.
pub open spec fn spec_set_tile(tv: Seq<Seq<(TileView, TileView)>>, pos: Position, t: TileView) -> Seq<
    Seq<(TileView, TileView)>,
> {
    let cell = tv[pos.y as int][pos.x as int];
    let new_cell = if pos.z == 0 {
        (t, cell.1)
    } else {
        (cell.0, t)
    };
    tv.update(pos.y as int, tv[pos.y as int].update(pos.x as int, new_cell))
}

/// Reading a tile back after setting it gives what was set; other tiles are untouched.
pub proof fn lemma_set_tile_at(tv: Seq<Seq<(TileView, TileView)>>, pos: Position, t: TileView, q: Position)
    requires
        spec_tile_at(tv, pos) is Some,
    ensures
        spec_tile_at(spec_set_tile(tv, pos, t), q) == (if q == pos {
            Some(t)
        } else {
            spec_tile_at(tv, q)
        }),
        spec_set_tile(tv, pos, t).len() == tv.len(),
        forall|y: int| 0 <= y < tv.len() ==> #[trigger] spec_set_tile(tv, pos, t)[y].len() == tv[y].len(),
{
}

/// At most 4096 rows and columns.
pub open spec fn within_route_bounds(g: Seq<Seq<(TileView, TileView)>>) -> bool {
    &&& g.len() <= 0x1000
    &&& forall|y: int| 0 <= y < g.len() ==> #[trigger] g[y].len() <= 0x1000
}

/// Writing back the tile that is already there changes nothing.
pub proof fn lemma_set_tile_same(g: Seq<Seq<(TileView, TileView)>>, pos: Position)
    requires
        spec_tile_at(g, pos) is Some,
    ensures
        spec_set_tile(g, pos, spec_tile_at(g, pos)->0) == g,
{
    let s = spec_set_tile(g, pos, spec_tile_at(g, pos)->0);
    assert(s[pos.y as int] =~= g[pos.y as int]);
    assert(s =~= g);
}

/// Replacing a tile keeps the grid's shape.
pub proof fn lemma_set_tile_bounds(g: Seq<Seq<(TileView, TileView)>>, pos: Position, t: TileView)
    requires
        spec_tile_at(g, pos) is Some,
        within_route_bounds(g),
    ensures
        within_route_bounds(spec_set_tile(g, pos, t)),
{
    lemma_set_tile_at(g, pos, t, pos);
    assert forall|y: int| 0 <= y < spec_set_tile(g, pos, t).len() implies #[trigger] spec_set_tile(g, pos, t)[y].len() <= 0x1000 by {
        assert(spec_set_tile(g, pos, t)[y].len() == g[y].len());
    }
}

/// The tiles of a grid within the route bounds lie in the box of its positions.
pub proof fn lemma_tile_in_box(g: Seq<Seq<(TileView, TileView)>>, p: Position)
    requires
        spec_tile_at(g, p) is Some,
        within_route_bounds(g),
    ensures
        in_route_box(p),
{
    assert(g[p.y as int].len() <= 0x1000);
}

/// The cells of the grid whose rows are the words of a map string.
pub open spec fn spec_grid_from_words(ws: Seq<Seq<char>>) -> Seq<Seq<(TileView, TileView)>> {
    Seq::new(
        ws.len(),
        |y: int| Seq::new(ws[y].len(), |x: int| (spec_tile_from_char(ws[y][x]), TileView::Empty)),
    )
}

/// The cells of a grid read from a ground and a bridge string side by side.
pub open spec fn spec_grid_from_layers(wa: Seq<Seq<char>>, wb: Seq<Seq<char>>) -> Seq<Seq<(TileView, TileView)>> {
    let n = if wa.len() < wb.len() { wa.len() } else { wb.len() };
    Seq::new(
        n,
        |y: int| {
            let m = if wa[y].len() < wb[y].len() { wa[y].len() } else { wb[y].len() };
            Seq::new(m, |x: int| (spec_tile_from_char(wa[y][x]), spec_tile_from_char(wb[y][x])))
        },
    )
}

/// No row is shorter than the first one (later rows may be longer; the
/// fix-up after parsing only walks the width of the first).
pub open spec fn no_row_shorter<T>(rows: Seq<Seq<T>>) -> bool {
    forall|y: int| 0 <= y < rows.len() ==> #[trigger] rows[y].len() >= rows[0].len()
}

/// No row is longer than `n`.
pub open spec fn rows_within<T>(rows: Seq<Seq<T>>, n: int) -> bool {
    forall|y: int| 0 <= y < rows.len() ==> #[trigger] rows[y].len() <= n
}

/// The direction a spawner on station tile `pos` of a `size` grid sends its vehicles:
/// inwards from the nearest side.
pub open spec fn spec_spawner_dir(pos: Position, size: (i16, i16)) -> Direction {
    if pos.x < size.0 / 4 {
        Direction::right()
    } else if pos.y < size.1 / 4 {
        Direction::down()
    } else if pos.x > (size.0 * 3) / 4 {
        Direction::left()
    } else {
        Direction::up()
    }
}

/// `p` is a tile of a `size.0` by `size.1` grid (on the ground layer).
pub open spec fn on_grid_of(p: Position, size: (i16, i16)) -> bool {
    0 <= p.x < size.0 && 0 <= p.y < size.1
}

/// `p` lies in the outer quarter of a `size` grid along some side.
pub open spec fn in_edge_quarter(p: Position, size: (i16, i16)) -> bool {
    p.x < size.0 / 4 || p.y < size.1 / 4 || p.x > (size.0 * 3) / 4 || p.y > (size.1 * 3) / 4
}

/// How far `p` is from the middle of a `size` grid, on the ground plane.
pub open spec fn distance_to_centre(p: Position, size: (i16, i16)) -> int {
    let dx = p.x - size.0 / 2;
    let dy = p.y - size.1 / 2;
    (if dx < 0 { -dx } else { dx }) + (if dy < 0 { -dy } else { dy })
}

/// Law: a spawner on a station tile sends its vehicles into the map: on a
/// grid at least four tiles each way, one step from the station along its
/// direction is still on the grid, and from a station in an edge quarter
/// that step leads nearer the middle.
pub proof fn lemma_spawner_faces_inwards(pos: Position, size: (i16, i16))
    requires
        size.0 >= 4,
        size.1 >= 4,
        on_grid_of(pos, size),
        pos.z == 0,
    ensures
        on_grid_of(super::position::plus(pos, spec_spawner_dir(pos, size)), size),
        in_edge_quarter(pos, size) ==> distance_to_centre(
            super::position::plus(pos, spec_spawner_dir(pos, size)),
            size,
        ) < distance_to_centre(pos, size),
{
}

/// The positions the fix-up after parsing walks, for a grid of `size` cells.
pub open spec fn spec_scan(size: (i16, i16)) -> Seq<Position> {
    area_from(
        Position { x: 0, y: 0, z: 0 },
        0,
        0,
        Direction { x: size.0 as i8, y: size.1 as i8, z: 0 },
    )
}

/// The id of the building tile at `p`, if a building tile stands there.
pub open spec fn house_at(tv: Seq<Seq<(TileView, TileView)>>, p: Position) -> Option<Id> {
    match spec_tile_at(tv, p) {
        Some(TileView::Building(id)) => Some(id),
        _ => None,
    }
}

/// The station of the road tile at `p`, if a road of a station stands there.
pub open spec fn station_at(tv: Seq<Seq<(TileView, TileView)>>, p: Position) -> Option<Id> {
    match spec_tile_at(tv, p) {
        Some(TileView::Road(r)) => r.station,
        _ => None,
    }
}

/// The effective extent of the fix-up walk along one side of `n` cells.
pub open spec fn scan_extent(n: i16) -> int {
    if (n as i8) < 1 {
        1
    } else {
        (n as i8) as int
    }
}

/// What parsing a map string made of the words `ws` yields:
/// - the rows are the words, each character read as a ground tile, bridges empty;
/// - every house character on the walked area became a house with a fresh id;
/// - every numbered station on the walked area has a building entry (a spawner
///   unless a house took that id);
/// - every building entry is a house standing on a tile that carries its id, or
///   a spawner built on a station tile of that number.
pub open spec fn parsed_from(ws: Seq<Seq<char>>, g: Grid) -> bool {
    let orig = spec_grid_from_words(ws);
    let size = (ws[0].len() as i16, ws.len() as i16);
    let scan = spec_scan(size);
    &&& g@.len() == orig.len()
    &&& forall|y: int| 0 <= y < orig.len() ==> #[trigger] g@[y].len() == orig[y].len()
    &&& forall|y: int, x: int|
        0 <= y < orig.len() && 0 <= x < orig[y].len() ==> (#[trigger] g@[y][x]).1 == orig[y][x].1
    &&& forall|y: int, x: int|
        0 <= y < orig.len() && 0 <= x < orig[y].len() && !(orig[y][x].0 is Building) ==> (
        #[trigger] g@[y][x]).0 == orig[y][x].0
    &&& forall|y: int, x: int|
        0 <= y < orig.len() && 0 <= x < orig[y].len() && orig[y][x].0 is Building ==> (
        #[trigger] g@[y][x]).0 == orig[y][x].0 || (g@[y][x].0 matches TileView::Building(id)
            && g.buildings@.contains_key(id) && is_new_house(
            g.buildings@[id],
            Position { x: x as i16, y: y as i16, z: 0 },
            DEFAULT_CITY_ID,
        ))
    &&& forall|j: int|
        0 <= j < scan.len() && house_at(orig, #[trigger] scan[j]) is Some ==> (house_at(g@, scan[j])
            is Some && house_at(g@, scan[j]).unwrap() >= 1)
    &&& forall|j: int|
        0 <= j < scan.len() && (#[trigger] station_at(orig, scan[j])) is Some
            ==> g.buildings@.contains_key(station_at(orig, scan[j]).unwrap())
    &&& forall|key: Id|
        #[trigger] g.buildings@.contains_key(key) ==> {
            let b = g.buildings@[key];
            ||| (is_new_house(b, b.pos, DEFAULT_CITY_ID) && spec_tile_at(g@, b.pos) == Some(
                TileView::Building(key),
            ))
            ||| exists|j: int|
                0 <= j < scan.len() && station_at(orig, #[trigger] scan[j]) == Some(key)
                    && is_new_spawner(
                    b,
                    scan[j],
                    spec_spawner_dir(scan[j], size),
                    spec_color_of_station(key),
                    DEFAULT_CITY_ID,
                )
        }
}

/// Every position the fix-up walks lies on the grid of `size` it walks.
proof fn lemma_scan_on_grid(size: (i16, i16), j: int)
    requires
        size.0 >= 1,
        size.1 >= 1,
        0 <= j < spec_scan(size).len(),
    ensures
        on_grid_of(spec_scan(size)[j], size),
        spec_scan(size)[j].z == 0,
{
    let area = Direction { x: size.0 as i8, y: size.1 as i8, z: 0 };
    lemma_area_from_bounds(Position { x: 0, y: 0, z: 0 }, 0, 0, area);
    let s0: i16 = size.0;
    let s1: i16 = size.1;
    assert(s0 >= 1 ==> (s0 as i8) as i16 <= s0 || (s0 as i8) < 1) by (bit_vector);
    assert(s1 >= 1 ==> (s1 as i8) as i16 <= s1 || (s1 as i8) < 1) by (bit_vector);
    assert(area_fits(Position { x: 0, y: 0, z: 0 }, area));
}

/// Law: every spawner read from a map string of at least four rows and four
/// columns faces into the map: one step from its tile along its direction is
/// still on the grid (see `lemma_spawner_faces_inwards`).
pub proof fn lemma_parsed_spawners_face_inwards(ws: Seq<Seq<char>>, g: Grid, key: Id)
    requires
        ws.len() >= 4,
        ws.len() <= i16::MAX,
        4 <= ws[0].len() <= 10922,
        parsed_from(ws, g),
        g.buildings@.contains_key(key),
        !is_new_house(g.buildings@[key], g.buildings@[key].pos, DEFAULT_CITY_ID),
    ensures
        g.buildings@[key].dir matches Some(d) && on_grid_of(
            super::position::plus(g.buildings@[key].pos, d),
            (ws[0].len() as i16, ws.len() as i16),
        ),
{
    let size = (ws[0].len() as i16, ws.len() as i16);
    let scan = spec_scan(size);
    let orig = spec_grid_from_words(ws);
    let b = g.buildings@[key];
    if !(is_new_house(b, b.pos, DEFAULT_CITY_ID) && spec_tile_at(g@, b.pos) == Some(TileView::Building(key))) {
        let j = choose|j: int|
            0 <= j < scan.len() && station_at(orig, #[trigger] scan[j]) == Some(key) && is_new_spawner(
                b,
                scan[j],
                spec_spawner_dir(scan[j], size),
                spec_color_of_station(key),
                DEFAULT_CITY_ID,
            );
        lemma_scan_on_grid(size, j);
        lemma_spawner_faces_inwards(scan[j], size);
    }
}

/// The characters of the first `n` tiles of one layer of a row.
pub open spec fn layer_chars(row: Seq<(TileView, TileView)>, bridge: bool, n: int) -> Seq<char>
    decreases n,
{
    if n <= 0 {
        seq![]
    } else {
        layer_chars(row, bridge, n - 1) + spec_tile_chars(
            if bridge {
                row[n - 1].1
            } else {
                row[n - 1].0
            },
        )
    }
}

/// How the map shows one row: the ground, then the bridges when there are any.
pub open spec fn row_chars(row: Seq<(TileView, TileView)>) -> Seq<char> {
    let has_bridges = exists|x: int| 0 <= x < row.len() && !(row[x].1 is Empty);
    layer_chars(row, false, row.len() as int) + (if has_bridges {
        seq![' ', ' '] + layer_chars(row, true, row.len() as int)
    } else {
        seq![]
    }) + seq!['\n']
}

/// How the map shows the first `n` rows, each on its own line after a leading newline.
pub open spec fn grid_chars(tv: Seq<Seq<(TileView, TileView)>>, n: int) -> Seq<char>
    decreases n,
{
    if n <= 0 {
        seq!['\n']
    } else {
        grid_chars(tv, n - 1) + row_chars(tv[n - 1])
    }
}

/// The grid of tiles together with the buildings that stand on it.
#[derive(PartialEq, Eq, Debug)]
pub struct Grid {
    pub tiles: Vec<Vec<GridTile>>,
    pub buildings: HashMapId<Building>,
}

impl Grid {
    pub open spec fn view(&self) -> Seq<Seq<(TileView, TileView)>> {
        Seq::new(
            self.tiles@.len(),
            |y: int| Seq::new(self.tiles@[y]@.len(), |x: int| self.tiles@[y]@[x]@),
        )
    }

    pub open spec fn tile_at(&self, pos: Position) -> Option<TileView> {
        spec_tile_at(self@, pos)
    }

    /// Every road on the grid lists each connection once and never `NONE`.
    pub open spec fn wf(&self) -> bool {
        forall|y: int, x: int|
            0 <= y < self.tiles@.len() && 0 <= x < self.tiles@[y]@.len() ==> (
            #[trigger] self.tiles@[y]@[x]).wf()
    }

    /// At most 4096 rows and columns: small enough that the cost of a route,
    /// at most three per tile, and the ticks a vehicle spends on it stay inside `u32`.
    pub open spec fn within_route_bounds(&self) -> bool {
        within_route_bounds(self@)
    }

    /// Every building is placed (see `placed`).
    pub open spec fn buildings_placed(&self) -> bool {
        forall|id: Id| #[trigger] self.buildings@.contains_key(id) ==> placed(self.buildings@[id])
    }

    /// The number of columns (of the first row) and of rows, as `i16`
    /// (truncating); `(0, 0)` for a grid without rows.
    pub open spec fn spec_size(&self) -> (i16, i16) {
        if self.tiles@.len() == 0 {
            (0, 0)
        } else {
            (self.tiles@[0]@.len() as i16, self.tiles@.len() as i16)
        }
    }

    /// An empty grid of `size.0` columns and `size.1` rows.
    pub fn new(size: (i16, i16)) -> (r: Self)
        requires
            size.0 >= 0,
            size.1 >= 0,
        ensures
            r.wf(),
            r@.len() == size.1,
            forall|y: int| 0 <= y < size.1 ==> #[trigger] r@[y].len() == size.0,
            forall|y: int, x: int|
                0 <= y < size.1 && 0 <= x < size.0 ==> r@[y].len() == size.0 && #[trigger] r@[y][x]
                    == (TileView::Empty, TileView::Empty),
            r.buildings@ == Map::<Id, Building>::empty(),
            r.buildings.id == 1,
            r.buildings.fresh(),
    {
        let mut tiles: Vec<Vec<GridTile>> = Vec::new();
        let mut y: i16 = 0;
        while y < size.1
            invariant
                0 <= y <= size.1,
                size.0 >= 0,
                tiles@.len() == y,
                forall|j: int| 0 <= j < y ==> (#[trigger] tiles@[j])@.len() == size.0,
                forall|j: int, x: int|
                    0 <= j < y && 0 <= x < size.0 ==> (#[trigger] tiles@[j]@[x])@ == (
                    TileView::Empty,
                    TileView::Empty,
                ) && tiles@[j]@[x].wf(),
            decreases size.1 - y,
        {
            let mut row: Vec<GridTile> = Vec::new();
            let mut x: i16 = 0;
            while x < size.0
                invariant
                    0 <= x <= size.0,
                    row@.len() == x,
                    forall|i: int| 0 <= i < x ==> (#[trigger] row@[i])@ == (TileView::Empty, TileView::Empty)
                        && row@[i].wf(),
                decreases size.0 - x,
            {
                row.push(GridTile::new());
                x = x + 1;
            }
            tiles.push(row);
            y = y + 1;
        }
        Grid { tiles, buildings: HashMapId::new() }
    }

    /// Whether every tile is well formed (see `wf`).
    pub fn check_wf(&self) -> (r: bool)
        ensures
            r == self.wf(),
    {
        let mut y: usize = 0;
        while y < self.tiles.len()
            invariant
                0 <= y <= self.tiles@.len(),
                forall|j: int, x: int| 0 <= j < y && 0 <= x < self.tiles@[j]@.len() ==> (#[trigger] self.tiles@[j]@[x]).wf(),
            decreases self.tiles@.len() - y,
        {
            let row = &self.tiles[y];
            let mut x: usize = 0;
            while x < row.len()
                invariant
                    0 <= y < self.tiles@.len(),
                    *row == self.tiles@[y as int],
                    0 <= x <= row@.len(),
                    forall|i: int| 0 <= i < x ==> (#[trigger] row@[i]).wf(),
                decreases row@.len() - x,
            {
                if !row[x].ground.check_wf() || !row[x].bridge.check_wf() {
                    assert(!self.tiles@[y as int]@[x as int].wf());
                    return false;
                }
                x = x + 1;
            }
            y = y + 1;
        }
        true
    }

    /// Whether the grid is within the route bounds (see `within_route_bounds`).
    pub fn check_route_bounds(&self) -> (r: bool)
        ensures
            r == self.within_route_bounds(),
    {
        if self.tiles.len() > 0x1000 {
            return false;
        }
        let mut y: usize = 0;
        while y < self.tiles.len()
            invariant
                0 <= y <= self.tiles@.len(),
                self.tiles@.len() <= 0x1000,
                forall|j: int| 0 <= j < y ==> #[trigger] self@[j].len() <= 0x1000,
            decreases self.tiles@.len() - y,
        {
            if self.tiles[y].len() > 0x1000 {
                assert(self@[y as int].len() > 0x1000);
                return false;
            }
            y = y + 1;
        }
        true
    }

    /// Whether every building is placed (see `buildings_placed`).
    pub fn check_buildings_placed(&self) -> (r: bool)
        ensures
            r == self.buildings_placed(),
    {
        let ids = self.buildings.ids();
        let mut i: usize = 0;
        while i < ids.len()
            invariant
                0 <= i <= ids@.len(),
                ids@.to_set() == self.buildings@.dom(),
                forall|j: int| 0 <= j < i ==> placed(#[trigger] self.buildings@[ids@[j]]),
            decreases ids@.len() - i,
        {
            assert(ids@.to_set().contains(ids@[i as int]));
            match self.buildings.hash_map.get(&ids[i]) {
                Some(b) => {
                    if !b.is_placed() {
                        return false;
                    }
                },
                None => {},
            }
            i = i + 1;
        }
        proof {
            assert forall|id: Id| #[trigger] self.buildings@.contains_key(id) implies placed(self.buildings@[id]) by {
                assert(ids@.to_set().contains(id));
                let j = choose|j: int| 0 <= j < ids@.len() && ids@[j] == id;
            }
        }
        true
    }

    /// The number of columns (of the first row) and of rows (see `spec_size`).
    pub fn size(&self) -> (r: (i16, i16))
        ensures
            r == self.spec_size(),
    {
        if self.tiles.len() == 0 {
            return (0, 0);
        }
        (self.tiles[0].len() as i16, self.tiles.len() as i16)
    }

    pub fn pos(&self, x: i16, y: i16) -> (r: Position)
        ensures
            r == (Position { x, y, z: 0 }),
    {
        Position::new(x, y)
    }

    /// Reads a map string: each whitespace-separated word is a row, each
    /// character a ground tile; then gives the houses and stations their buildings.
    pub fn new_from_string(string: &str) -> (grid: Grid)
        requires
            words(string@).len() > 0,
            words(string@).len() <= i16::MAX,
            words(string@)[0].len() <= 10922,
            no_row_shorter(words(string@)),
        ensures
            grid.wf(),
            parsed_from(words(string@), grid),
    {
        let chars = str_chars(string);
        let lines = split_ascii_whitespace(&chars);
        let ghost ws = words(string@);
        proof {
            lemma_words_nonempty(string@);
        }
        let mut tiles: Vec<Vec<GridTile>> = Vec::new();
        let mut y: usize = 0;
        while y < lines.len()
            invariant
                0 <= y <= lines.len(),
                lines@.len() == ws.len(),
                forall|i: int| 0 <= i < lines@.len() ==> #[trigger] lines@[i]@ == ws[i],
                tiles@.len() == y,
                forall|j: int| 0 <= j < y ==> (#[trigger] tiles@[j])@.len() == ws[j].len(),
                forall|j: int, x: int|
                    0 <= j < y && 0 <= x < ws[j].len() ==> (#[trigger] tiles@[j]@[x])@ == (
                    spec_tile_from_char(ws[j][x]),
                    TileView::Empty,
                ) && tiles@[j]@[x].wf(),
            decreases lines.len() - y,
        {
            let line = &lines[y];
            let mut row: Vec<GridTile> = Vec::new();
            let mut x: usize = 0;
            while x < line.len()
                invariant
                    0 <= x <= line.len(),
                    line@ == ws[y as int],
                    row@.len() == x,
                    forall|i: int| 0 <= i < x ==> (#[trigger] row@[i])@ == (
                        spec_tile_from_char(ws[y as int][i]),
                        TileView::Empty,
                    ) && row@[i].wf(),
                decreases line.len() - x,
            {
                row.push(GridTile::new_from_char(line[x]));
                x = x + 1;
            }
            tiles.push(row);
            y = y + 1;
        }
        let mut grid = Grid { buildings: HashMapId::new(), tiles };
        assert(grid@ =~~= spec_grid_from_words(ws));
        grid.fixup_from_string(Ghost(ws));
        grid
    }

    /// Gives every house character of a freshly read grid its own house, and
    /// every numbered station a spawner (unless that id is taken).
    fn fixup_from_string(&mut self, Ghost(ws): Ghost<Seq<Seq<char>>>)
        requires
            ws.len() > 0,
            ws.len() <= i16::MAX,
            ws[0].len() <= 10922,
            no_row_shorter(ws),
            forall|i: int| 0 <= i < ws.len() ==> #[trigger] ws[i].len() > 0,
            old(self)@ == spec_grid_from_words(ws),
            old(self).wf(),
            old(self).buildings.id == 1,
            old(self).buildings@ == Map::<Id, Building>::empty(),
        ensures
            final(self).wf(),
            parsed_from(ws, *final(self)),
    {
        let ghost orig = spec_grid_from_words(ws);
        assert(self.tiles@.len() == self@.len());
        let size = self.size();
        let origin = Position::new(0, 0);
        let area = Direction::new(size.0 as i8, size.1 as i8, 0);
        let ghost scan = spec_scan(size);
        let ghost w = scan_extent(size.0);
        let ghost h = scan_extent(size.1);
        proof {
            assert(self.tiles@.len() == orig.len());
            assert(self.tiles@[0]@.len() == self@[0].len());
            assert(size == (ws[0].len() as i16, ws.len() as i16));
            lemma_area_from_bounds(origin, 0, 0, area);
            lemma_area_from_increasing(origin, 0, 0, area);
            assert(scan.len() <= (h - 1) * w + w);
            assert((h - 1) * w + w <= 127 * 127) by (nonlinear_arith)
                requires 1 <= w <= 127, 1 <= h <= 127;
            let s0: i16 = size.0;
            let s1: i16 = size.1;
            assert(s0 >= 1 ==> (s0 as i8) as i16 <= s0 || (s0 as i8) < 1) by (bit_vector);
            assert(s1 >= 1 ==> (s1 as i8) as i16 <= s1 || (s1 as i8) < 1) by (bit_vector);
        }
        let mut it = origin.iter_area(area);
        let ghost mut k: int = 0;
        loop
            invariant
                it.wf(),
                0 <= k <= scan.len(),
                it@ == scan.skip(k),
                scan == spec_scan(size),
                size == (ws[0].len() as i16, ws.len() as i16),
                0 < size.0 <= 10922,
                0 < size.1,
                orig == spec_grid_from_words(ws),
                scan.len() <= 127 * 127,
                forall|i: int, j: int| 0 <= i < j < scan.len() ==> before(#[trigger] scan[i], #[trigger] scan[j]),
                forall|j: int| k <= j < scan.len() ==> spec_tile_at(self@, #[trigger] scan[j]) == spec_tile_at(orig, scan[j]),
                forall|j: int| 0 <= j < scan.len() ==> {
                    let p = #[trigger] scan[j];
                    0 <= p.x < ws[0].len() && 0 <= p.y < ws.len() && p.z == 0
                },
                no_row_shorter(ws),
                self.wf(),
                1 <= self.buildings.id <= 1 + k,
                self@.len() == orig.len(),
                forall|y: int| 0 <= y < orig.len() ==> #[trigger] self@[y].len() == orig[y].len(),
                forall|y: int, x: int|
                    0 <= y < orig.len() && 0 <= x < orig[y].len() ==> (#[trigger] self@[y][x]).1
                        == orig[y][x].1,
                forall|y: int, x: int|
                    0 <= y < orig.len() && 0 <= x < orig[y].len() && !(orig[y][x].0 is Building) ==> (
                    #[trigger] self@[y][x]).0 == orig[y][x].0,
                forall|y: int, x: int|
                    0 <= y < orig.len() && 0 <= x < orig[y].len() && orig[y][x].0 is Building ==> (
                    #[trigger] self@[y][x]).0 == orig[y][x].0 || (self@[y][x].0 matches TileView::Building(
                        id,
                    ) && 1 <= id < self.buildings.id && self.buildings@.contains_key(id) && is_new_house(
                        self.buildings@[id],
                        Position { x: x as i16, y: y as i16, z: 0 },
                        DEFAULT_CITY_ID,
                    )),
                forall|j: int|
                    0 <= j < k && house_at(orig, #[trigger] scan[j]) is Some ==> (house_at(self@, scan[j])
                        is Some && house_at(self@, scan[j]).unwrap() >= 1),
                forall|j: int|
                    0 <= j < k && (#[trigger] station_at(orig, scan[j])) is Some
                        ==> self.buildings@.contains_key(station_at(orig, scan[j]).unwrap()),
                forall|key: Id|
                    #[trigger] self.buildings@.contains_key(key) ==> {
                        let b = self.buildings@[key];
                        ||| (is_new_house(b, b.pos, DEFAULT_CITY_ID) && spec_tile_at(self@, b.pos) == Some(
                            TileView::Building(key),
                        ) && 1 <= key < self.buildings.id)
                        ||| exists|j: int|
                            0 <= j < k && station_at(orig, #[trigger] scan[j]) == Some(key)
                                && is_new_spawner(
                                b,
                                scan[j],
                                spec_spawner_dir(scan[j], size),
                                spec_color_of_station(key),
                                DEFAULT_CITY_ID,
                            )
                    },
            decreases it@.len(),
        {
            let next = it.next();
            let pos = match next {
                Some(p) => p,
                None => {
                    assert(k == scan.len());
                    return;
                },
            };
            assert(pos == scan[k]);
            let ghost pre = self@;
            let ghost pre_b = self.buildings@;
            let is_house = match self.get_tile(&pos) {
                Some(Tile::Building(_)) => true,
                _ => false,
            };
            let station = match self.get_tile(&pos) {
                Some(Tile::Road(road)) => road.station,
                _ => None,
            };
            if is_house {
                let building_id = self.buildings.insert(Building::new_house(pos, DEFAULT_CITY_ID));
                match self.get_tile_mut(&pos) {
                    Some(t) => {
                        *t = Tile::Building(building_id);
                    },
                    None => {},
                }
            } else if let Some(station) = station {
                if !self.buildings.hash_map.contains_key(&station) {
                    let dir = if pos.x < size.0 / 4 {
                        Direction::right()
                    } else if pos.y < size.1 / 4 {
                        Direction::down()
                    } else if pos.x > (size.0 * 3) / 4 {
                        Direction::left()
                    } else {
                        Direction::up()
                    };
                    self.buildings.hash_map.insert(
                        station,
                        Building::new_spawner(
                            pos,
                            dir,
                            SpawnerColors::from_number(station),
                            DEFAULT_CITY_ID,
                        ),
                    );
                }
            }
            proof {
                let kk = k;
                assert(spec_tile_at(pre, pos) == spec_tile_at(orig, pos));
                if is_house {
                    let nid = (self.buildings.id - 1) as u64;
                    assert(spec_tile_at(orig, pos) == Some(TileView::Building(0)));
                    lemma_set_tile_at(pre, pos, TileView::Building(nid), pos);
                    assert forall|key: Id| #[trigger] self.buildings@.contains_key(key) implies {
                        let b = self.buildings@[key];
                        ||| (is_new_house(b, b.pos, DEFAULT_CITY_ID) && spec_tile_at(self@, b.pos) == Some(
                            TileView::Building(key),
                        ) && 1 <= key < self.buildings.id)
                        ||| exists|j: int|
                            0 <= j < kk + 1 && station_at(orig, #[trigger] scan[j]) == Some(key)
                                && is_new_spawner(
                                b,
                                scan[j],
                                spec_spawner_dir(scan[j], size),
                                spec_color_of_station(key),
                                DEFAULT_CITY_ID,
                            )
                    } by {
                        if key != nid {
                            let b = pre_b[key];
                            assert(self.buildings@[key] == b);
                            if is_new_house(b, b.pos, DEFAULT_CITY_ID) && spec_tile_at(pre, b.pos) == Some(
                                TileView::Building(key)) && 1 <= key < nid {
                                lemma_set_tile_at(pre, pos, TileView::Building(nid), b.pos);
                            } else {
                                let j = choose|j: int|
                                    0 <= j < kk && station_at(orig, #[trigger] scan[j]) == Some(key)
                                        && is_new_spawner(
                                        b,
                                        scan[j],
                                        spec_spawner_dir(scan[j], size),
                                        spec_color_of_station(key),
                                        DEFAULT_CITY_ID,
                                    );
                                assert(station_at(orig, scan[j]) == Some(key));
                            }
                        }
                    }
                } else if station is Some && !pre_b.contains_key(station.unwrap()) {
                    let st = station.unwrap();
                    assert(self@ == pre);
                    assert(station_at(orig, scan[kk]) == Some(st));
                    assert forall|key: Id| #[trigger] self.buildings@.contains_key(key) implies {
                        let b = self.buildings@[key];
                        ||| (is_new_house(b, b.pos, DEFAULT_CITY_ID) && spec_tile_at(self@, b.pos) == Some(
                            TileView::Building(key),
                        ) && 1 <= key < self.buildings.id)
                        ||| exists|j: int|
                            0 <= j < kk + 1 && station_at(orig, #[trigger] scan[j]) == Some(key)
                                && is_new_spawner(
                                b,
                                scan[j],
                                spec_spawner_dir(scan[j], size),
                                spec_color_of_station(key),
                                DEFAULT_CITY_ID,
                            )
                    } by {
                        if key == st {
                            assert(station_at(orig, scan[kk]) == Some(key));
                        } else {
                            let b = pre_b[key];
                            assert(self.buildings@[key] == b);
                            if !(is_new_house(b, b.pos, DEFAULT_CITY_ID) && spec_tile_at(pre, b.pos) == Some(
                                TileView::Building(key)) && 1 <= key < self.buildings.id) {
                                let j = choose|j: int|
                                    0 <= j < kk && station_at(orig, #[trigger] scan[j]) == Some(key)
                                        && is_new_spawner(
                                        b,
                                        scan[j],
                                        spec_spawner_dir(scan[j], size),
                                        spec_color_of_station(key),
                                        DEFAULT_CITY_ID,
                                    );
                                assert(station_at(orig, scan[j]) == Some(key));
                            }
                        }
                    }
                } else {
                    assert(self@ == pre);
                    assert(self.buildings@ == pre_b);
                    assert forall|key: Id| #[trigger] self.buildings@.contains_key(key) implies {
                        let b = self.buildings@[key];
                        ||| (is_new_house(b, b.pos, DEFAULT_CITY_ID) && spec_tile_at(self@, b.pos) == Some(
                            TileView::Building(key),
                        ) && 1 <= key < self.buildings.id)
                        ||| exists|j: int|
                            0 <= j < kk + 1 && station_at(orig, #[trigger] scan[j]) == Some(key)
                                && is_new_spawner(
                                b,
                                scan[j],
                                spec_spawner_dir(scan[j], size),
                                spec_color_of_station(key),
                                DEFAULT_CITY_ID,
                            )
                    } by {
                        let b = pre_b[key];
                        if !(is_new_house(b, b.pos, DEFAULT_CITY_ID) && spec_tile_at(pre, b.pos) == Some(
                            TileView::Building(key)) && 1 <= key < self.buildings.id) {
                            let j = choose|j: int|
                                0 <= j < kk && station_at(orig, #[trigger] scan[j]) == Some(key)
                                    && is_new_spawner(
                                    b,
                                    scan[j],
                                    spec_spawner_dir(scan[j], size),
                                    spec_color_of_station(key),
                                    DEFAULT_CITY_ID,
                                );
                            assert(station_at(orig, scan[j]) == Some(key));
                        }
                    }
                }
                assert forall|j: int| k < j < scan.len() implies spec_tile_at(self@, #[trigger] scan[j]) == spec_tile_at(orig, scan[j]) by {
                    assert(before(scan[k], scan[j]));
                    if is_house {
                        lemma_set_tile_at(pre, pos, TileView::Building((self.buildings.id - 1) as u64), scan[j]);
                    }
                }
                k = k + 1;
            }
        }
    }

    /// Reads a ground string and a bridge string side by side: word by word and
    /// character by character, as far as both go. No buildings are created.
    pub fn new_from_string_layers(string: &str, bridge_layer: &str) -> (grid: Grid)
        ensures
            grid.wf(),
            grid.buildings@ == Map::<Id, Building>::empty(),
            grid.buildings.id == 1,
            grid@ == spec_grid_from_layers(words(string@), words(bridge_layer@)),
    {
        let a_chars = str_chars(string);
        let b_chars = str_chars(bridge_layer);
        let a = split_ascii_whitespace(&a_chars);
        let b = split_ascii_whitespace(&b_chars);
        let ghost wa = words(string@);
        let ghost wb = words(bridge_layer@);
        let ghost target = spec_grid_from_layers(wa, wb);
        let n = if a.len() < b.len() { a.len() } else { b.len() };
        let mut tiles: Vec<Vec<GridTile>> = Vec::new();
        let mut y: usize = 0;
        while y < n
            invariant
                0 <= y <= n,
                n == target.len(),
                target == spec_grid_from_layers(wa, wb),
                a@.len() == wa.len(),
                b@.len() == wb.len(),
                n <= a@.len() && n <= b@.len(),
                forall|i: int| 0 <= i < a@.len() ==> #[trigger] a@[i]@ == wa[i],
                forall|i: int| 0 <= i < b@.len() ==> #[trigger] b@[i]@ == wb[i],
                tiles@.len() == y,
                forall|j: int| 0 <= j < y ==> (#[trigger] tiles@[j])@.len() == target[j].len(),
                forall|j: int, x: int|
                    0 <= j < y && 0 <= x < target[j].len() ==> (#[trigger] tiles@[j]@[x])@ == target[j][x]
                        && tiles@[j]@[x].wf(),
            decreases n - y,
        {
            let la = &a[y];
            let lb = &b[y];
            let m = if la.len() < lb.len() { la.len() } else { lb.len() };
            let mut row: Vec<GridTile> = Vec::new();
            let mut x: usize = 0;
            while x < m
                invariant
                    0 <= x <= m,
                    y < n,
                    n == target.len(),
                    la@ == wa[y as int],
                    lb@ == wb[y as int],
                    m == target[y as int].len(),
                    m <= la@.len() && m <= lb@.len(),
                    target == spec_grid_from_layers(wa, wb),
                    row@.len() == x,
                    forall|i: int| 0 <= i < x ==> (#[trigger] row@[i])@ == target[y as int][i] && row@[i].wf(),
                decreases m - x,
            {
                let cell = GridTile::new_from_char_layers((la[x], lb[x]));
                assert(target[y as int][x as int] == (spec_tile_from_char(wa[y as int][x as int]), spec_tile_from_char(wb[y as int][x as int])));
                row.push(cell);
                x = x + 1;
            }
            tiles.push(row);
            y = y + 1;
        }
        let grid = Grid { tiles, buildings: HashMapId::new() };
        assert(grid@ =~~= target);
        grid
    }

    /// The characters of one layer of row `y`.
    fn layer_debug_chars(&self, y: usize, bridge: bool) -> (r: Vec<char>)
        requires
            y < self@.len(),
        ensures
            r@ == layer_chars(self@[y as int], bridge, self@[y as int].len() as int),
    {
        let row = &self.tiles[y];
        let mut out: Vec<char> = Vec::new();
        let mut x: usize = 0;
        while x < row.len()
            invariant
                0 <= x <= row.len(),
                y < self@.len(),
                row == self.tiles@[y as int],
                row@.len() == self@[y as int].len(),
                forall|i: int| 0 <= i < row@.len() ==> #[trigger] row@[i]@ == self@[y as int][i],
                out@ == layer_chars(self@[y as int], bridge, x as int),
            decreases row.len() - x,
        {
            let cell = &row[x];
            let chars = if bridge {
                cell.bridge.debug_chars()
            } else {
                cell.ground.debug_chars()
            };
            let mut i: usize = 0;
            let ghost before = out@;
            while i < chars.len()
                invariant
                    0 <= i <= chars.len(),
                    out@ == before + chars@.take(i as int),
                decreases chars.len() - i,
            {
                out.push(chars[i]);
                i = i + 1;
                assert(out@ =~= before + chars@.take(i as int));
            }
            assert(chars@.take(chars@.len() as int) =~= chars@);
            assert(cell@ == self@[y as int][x as int]);
            assert(layer_chars(self@[y as int], bridge, x + 1) == layer_chars(self@[y as int], bridge, x as int) + spec_tile_chars(
                if bridge { self@[y as int][x as int].1 } else { self@[y as int][x as int].0 }));
            x = x + 1;
        }
        out
    }

    /// The characters that show this grid: a leading newline, then every row
    /// as its ground tiles, the bridge tiles after two spaces when the row has
    /// any, and a newline.
    pub fn debug_chars(&self) -> (r: Vec<char>)
        ensures
            r@ == grid_chars(self@, self@.len() as int),
    {
        let mut out: Vec<char> = vec!['\n'];
        let mut y: usize = 0;
        while y < self.tiles.len()
            invariant
                0 <= y <= self.tiles.len(),
                self.tiles@.len() == self@.len(),
                out@ == grid_chars(self@, y as int),
            decreases self.tiles.len() - y,
        {
            let ground = self.layer_debug_chars(y, false);
            let mut has_bridges = false;
            let mut x: usize = 0;
            while x < self.tiles[y].len()
                invariant
                    0 <= x <= self.tiles@[y as int]@.len(),
                    y < self@.len(),
                    self.tiles@[y as int]@.len() == self@[y as int].len(),
                    has_bridges == exists|i: int| 0 <= i < x && !(self@[y as int][i].1 is Empty),
                decreases self.tiles@[y as int]@.len() - x,
            {
                let is_empty = match &self.tiles[y][x].bridge {
                    Tile::Empty => true,
                    _ => false,
                };
                if !is_empty {
                    has_bridges = true;
                }
                assert(self.tiles@[y as int]@[x as int]@ == self@[y as int][x as int]);
                x = x + 1;
            }
            let mut line: Vec<char> = ground;
            if has_bridges {
                line.push(' ');
                line.push(' ');
                let bridge = self.layer_debug_chars(y, true);
                let mut i: usize = 0;
                let ghost before = line@;
                while i < bridge.len()
                    invariant
                        0 <= i <= bridge.len(),
                        line@ == before + bridge@.take(i as int),
                    decreases bridge.len() - i,
                {
                    line.push(bridge[i]);
                    i = i + 1;
                    assert(line@ =~= before + bridge@.take(i as int));
                }
                assert(bridge@.take(bridge@.len() as int) =~= bridge@);
            }
            line.push('\n');
            let ghost before = out@;
            let mut i: usize = 0;
            while i < line.len()
                invariant
                    0 <= i <= line.len(),
                    out@ == before + line@.take(i as int),
                decreases line.len() - i,
            {
                out.push(line[i]);
                i = i + 1;
                assert(out@ =~= before + line@.take(i as int));
            }
            assert(line@.take(line@.len() as int) =~= line@);
            assert(line@ =~= row_chars(self@[y as int]));
            y = y + 1;
        }
        out
    }

    pub fn get_tile(&self, pos: &Position) -> (r: Option<&Tile>)
        ensures
            r is Some <==> self.tile_at(*pos) is Some,
            r matches Some(t) ==> self.tile_at(*pos) == Some(t@),
            r matches Some(t) ==> self.wf() ==> t.wf(),
    {
        if pos.y < 0 || pos.x < 0 {
            return None;
        }
        let y = pos.y as usize;
        let x = pos.x as usize;
        if y < self.tiles.len() && x < self.tiles[y].len() {
            self.tiles[y][x].get(pos.z)
        } else {
            None
        }
    }

    pub fn get_tile_mut(&mut self, pos: &Position) -> (r: Option<&mut Tile>)
        ensures
            r is Some <==> old(self).tile_at(*pos) is Some,
            r is None ==> *final(self) == *old(self),
            r is Some ==> old(self).tile_at(*pos) == Some(r->0@),
            r is Some ==> final(self)@ =~~= spec_set_tile(old(self)@, *pos, (*final(r->0))@),
            r is Some ==> final(self).buildings == old(self).buildings,
            r is Some ==> (old(self).wf() && (*final(r->0)).wf() ==> final(self).wf()),
            r is Some ==> (old(self).wf() ==> r->0.wf()),
    {
        if pos.y < 0 || pos.x < 0 {
            return None;
        }
        let y = pos.y as usize;
        let x = pos.x as usize;
        if y < self.tiles.len() && x < self.tiles[y].len() {
            if pos.z == 0 {
                let r = &mut self.tiles[y][x].ground;
                Some(r)
            } else if pos.z == 1 {
                let r = &mut self.tiles[y][x].bridge;
                Some(r)
            } else {
                None
            }
        } else {
            None
        }
    }
}

} // verus!
