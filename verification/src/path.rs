use vstd::prelude::*;

use crate::grid::connections::{count_ones, nibble_dirs, ones};
use crate::grid::direction::spec_bit;
use crate::grid::{Direction, GridPosition as Pos, GRID_SIZE};

verus! {

/// The cost of stepping onto a free cell.
pub const DEFAULT_COST: u32 = 2;

/// The cost of stepping onto an occupied cell.
pub const OCCUPIED_COST: u32 = 3;

/// The cell next to `p` along `d`, without wrapping.
pub open spec fn neighbour(p: Pos, d: Direction) -> Pos {
    match d {
        Direction::Up => Pos { x: p.x, y: (p.y - 1) as i16 },
        Direction::Down => Pos { x: p.x, y: (p.y + 1) as i16 },
        Direction::Right => Pos { x: (p.x + 1) as i16, y: p.y },
        Direction::Left => Pos { x: (p.x - 1) as i16, y: p.y },
    }
}

/// Every neighbour of `p` stays inside the `i16` range.
pub open spec fn neighbours_fit(p: Pos) -> bool {
    i16::MIN < p.x < i16::MAX && i16::MIN < p.y < i16::MAX
}

/// The cells next to `start` that the connection flags `c` lead to, in the
/// order up, down, right, left.
pub open spec fn spec_neighbours(start: Pos, c: u32) -> Seq<Pos> {
    nibble_dirs(c).map_values(|d: Direction| neighbour(start, d))
}

/// Hands out the cells a tile's connections lead to.
pub struct PathTileIter {
    pub start_pos: Pos,
    pub connections: u32,
}

impl PathTileIter {
    /// The next cell, if any is left: the first of `spec_neighbours`.
    pub fn next(&mut self) -> (r: Option<Pos>)
        requires
            neighbours_fit(old(self).start_pos),
        ensures
            final(self).start_pos == old(self).start_pos,
            spec_neighbours(old(self).start_pos, old(self).connections) == (match r {
                Some(p) => seq![p],
                None => Seq::empty(),
            }) + spec_neighbours(final(self).start_pos, final(self).connections),
            r is Some ==> final(self).connections < old(self).connections,
            r is None ==> spec_neighbours(old(self).start_pos, old(self).connections) == Seq::<Pos>::empty(),
    {
        let c = self.connections;
        let s = self.start_pos;
        proof {
            assert(c & 1 == (c & 15) & 1 && c & 2 == (c & 15) & 2 && c & 4 == (c & 15) & 4 && c & 8 == (c & 15)
                & 8) by (bit_vector);
        }
        if c & 1 != 0 {
            proof {
                lemma_drop_flag(c, 1);
            }
            self.connections = c - 1;
            Some(Pos { x: s.x, y: s.y - 1 })
        } else if c & 2 != 0 {
            proof {
                lemma_drop_flag(c, 2);
            }
            self.connections = c - 2;
            Some(Pos { x: s.x, y: s.y + 1 })
        } else if c & 8 != 0 {
            proof {
                lemma_drop_flag(c, 8);
            }
            self.connections = c - 8;
            Some(Pos { x: s.x + 1, y: s.y })
        } else if c & 4 != 0 {
            proof {
                lemma_drop_flag(c, 4);
            }
            self.connections = c - 4;
            Some(Pos { x: s.x - 1, y: s.y })
        } else {
            assert(nibble_dirs(c) =~= Seq::<Direction>::empty());
            None
        }
    }

    /// All the cells still to come, in order.
    pub fn collect_vec(self) -> (r: Vec<Pos>)
        requires
            neighbours_fit(self.start_pos),
        ensures
            r@ == spec_neighbours(self.start_pos, self.connections),
    {
        let mut it = self;
        let mut out: Vec<Pos> = Vec::new();
        loop
            invariant
                it.start_pos == self.start_pos,
                neighbours_fit(self.start_pos),
                out@ + spec_neighbours(it.start_pos, it.connections) == spec_neighbours(
                    self.start_pos,
                    self.connections,
                ),
            decreases it.connections,
        {
            let ghost prev = out@;
            match it.next() {
                Some(p) => {
                    out.push(p);
                    proof {
                        assert(out@ + spec_neighbours(it.start_pos, it.connections) =~= prev + (seq![p]
                            + spec_neighbours(it.start_pos, it.connections)));
                    }
                },
                None => {
                    assert(out@ + spec_neighbours(it.start_pos, it.connections) =~= out@);
                    return out;
                },
            }
        }
    }
}

/// Taking the first flag off `c` takes the first direction off its list.
proof fn lemma_drop_flag(c: u32, bit: u32)
    requires
        bit == 1 || bit == 2 || bit == 4 || bit == 8,
        c & bit != 0,
        bit == 2 ==> c & 1 == 0,
        bit == 8 ==> c & 1 == 0 && c & 2 == 0,
        bit == 4 ==> c & 1 == 0 && c & 2 == 0 && c & 8 == 0,
    ensures
        c >= bit,
        nibble_dirs(c) == seq![
            if bit == 1 {
                Direction::Up
            } else if bit == 2 {
                Direction::Down
            } else if bit == 8 {
                Direction::Right
            } else {
                Direction::Left
            },
        ] + nibble_dirs((c - bit) as u32),
{
    assert(c >= bit) by (bit_vector)
        requires
            (bit == 1 || bit == 2 || bit == 4 || bit == 8),
            c & bit != 0,
    ;
    let d = (c - bit) as u32;
    assert(d & bit == 0 && (bit != 1 ==> d & 1 == c & 1) && (bit != 2 ==> d & 2 == c & 2) && (bit != 4 ==> d & 4
        == c & 4) && (bit != 8 ==> d & 8 == c & 8)) by (bit_vector)
        requires
            (bit == 1 || bit == 2 || bit == 4 || bit == 8),
            c & bit != 0,
            d == c - bit,
    ;
    assert(nibble_dirs(c) =~= seq![
        if bit == 1 {
            Direction::Up
        } else if bit == 2 {
            Direction::Down
        } else if bit == 8 {
            Direction::Right
        } else {
            Direction::Left
        },
    ] + nibble_dirs(d));
}

/// A cell of the path grid: whether routes may use it, whether something
/// occupies it, and the directions it connects to (as flags).
#[derive(Clone, Copy, PartialEq, Eq, Structural, Debug)]
pub struct PathTile {
    pub allowed: bool,
    pub occupied: bool,
    pub connections: u32,
}

impl PathTile {
    /// A cell routes may not use, free, without connections.
    #[verifier::allow_in_spec]
    pub fn new() -> PathTile
        returns
            (PathTile { allowed: false, occupied: false, connections: 0 }),
    {
        PathTile { allowed: false, occupied: false, connections: 0 }
    }

    /// Connects `dir`.
    pub fn connect(&mut self, dir: Direction)
        ensures
            *final(self) == (PathTile { connections: old(self).connections | spec_bit(dir), ..*old(self) }),
    {
        self.connections = self.connections | dir.bit();
    }

    /// Whether `dir` is connected.
    pub fn is_connected(&self, dir: Direction) -> (r: bool)
        ensures
            r == (self.connections & spec_bit(dir) != 0),
    {
        self.connections & dir.bit() != 0
    }

    /// How many connection flags are set.
    pub fn connections_count(&self) -> (r: u32)
        ensures
            r == ones(self.connections),
    {
        count_ones(self.connections)
    }

    /// The cells the connections lead to from `start_pos`.
    pub fn connections_as_iter(&self, start_pos: Pos) -> (r: PathTileIter)
        ensures
            r.start_pos == start_pos,
            r.connections == self.connections,
    {
        PathTileIter { connections: self.connections, start_pos }
    }
}

impl Pos {
    /// The Manhattan distance to `other`.
    pub fn distance(&self, other: &Pos) -> (r: u32)
        requires
            abs_diff(self.x as int, other.x as int) + abs_diff(self.y as int, other.y as int) <= u16::MAX,
        ensures
            r == abs_diff(self.x as int, other.x as int) + abs_diff(self.y as int, other.y as int),
    {
        let dx: u16 = if self.x > other.x {
            (self.x as i32 - other.x as i32) as u16
        } else {
            (other.x as i32 - self.x as i32) as u16
        };
        let dy: u16 = if self.y > other.y {
            (self.y as i32 - other.y as i32) as u16
        } else {
            (other.y as i32 - self.y as i32) as u16
        };
        (dx + dy) as u32
    }
}

/// The distance between two numbers.
pub open spec fn abs_diff(a: int, b: int) -> int {
    if a > b {
        a - b
    } else {
        b - a
    }
}

/// The cells of the fixed grid, column by column.
pub struct PathGrid {
    pub tiles: Vec<Vec<PathTile>>,
}

impl View for PathGrid {
    type V = Seq<Seq<PathTile>>;

    open spec fn view(&self) -> Seq<Seq<PathTile>> {
        self.tiles@.map_values(|col: Vec<PathTile>| col@)
    }
}

/// `p` is a cell of the fixed grid.
pub open spec fn on_grid(p: Pos) -> bool {
    0 <= p.x < GRID_SIZE.0 && 0 <= p.y < GRID_SIZE.1
}

impl PathGrid {
    /// The grid has `GRID_SIZE.0` columns of `GRID_SIZE.1` cells.
    pub open spec fn wf(&self) -> bool {
        &&& self.tiles@.len() == GRID_SIZE.0
        &&& forall|x: int| 0 <= x < GRID_SIZE.0 ==> #[trigger] self.tiles@[x]@.len() == GRID_SIZE.1
    }

    /// The cell at `p`.
    pub open spec fn tile(&self, p: Pos) -> PathTile {
        self.tiles@[p.x as int]@[p.y as int]
    }

    /// The grid after setting the cell at `p` to `t`.
    pub open spec fn with_tile(self, p: Pos, t: PathTile) -> Seq<Seq<PathTile>> {
        self@.update(p.x as int, self@[p.x as int].update(p.y as int, t))
    }

    /// A fixed grid of new cells.
    pub fn new() -> (r: Self)
        ensures
            r.wf(),
            forall|x: int, y: int|
                0 <= x < GRID_SIZE.0 && 0 <= y < GRID_SIZE.1 ==> #[trigger] r.tiles@[x]@[y] == PathTile::new(),
    {
        let mut tiles: Vec<Vec<PathTile>> = Vec::new();
        let mut x: i16 = 0;
        while x < GRID_SIZE.0
            invariant
                0 <= x <= GRID_SIZE.0,
                tiles@.len() == x,
                forall|i: int| 0 <= i < x ==> #[trigger] tiles@[i]@.len() == GRID_SIZE.1,
                forall|i: int, j: int|
                    0 <= i < x && 0 <= j < GRID_SIZE.1 ==> #[trigger] tiles@[i]@[j] == PathTile::new(),
            decreases GRID_SIZE.0 - x,
        {
            let mut column: Vec<PathTile> = Vec::new();
            let mut y: i16 = 0;
            while y < GRID_SIZE.1
                invariant
                    0 <= y <= GRID_SIZE.1,
                    column@.len() == y,
                    forall|j: int| 0 <= j < y ==> #[trigger] column@[j] == PathTile::new(),
                decreases GRID_SIZE.1 - y,
            {
                column.push(PathTile::new());
                y = y + 1;
            }
            tiles.push(column);
            x = x + 1;
        }
        PathGrid { tiles }
    }

    /// The cells next to `pos` its connections lead to, each with the cost
    /// of stepping onto it.
    pub fn successors(&self, pos: Pos) -> (r: Vec<(Pos, u32)>)
        requires
            self.wf(),
            on_grid(pos),
            forall|i: int|
                0 <= i < spec_neighbours(pos, self.tile(pos).connections).len() ==> on_grid(
                    #[trigger] spec_neighbours(pos, self.tile(pos).connections)[i],
                ),
        ensures
            r@ == spec_neighbours(pos, self.tile(pos).connections).map_values(
                |p: Pos| (p, if self.tile(p).occupied { OCCUPIED_COST } else { DEFAULT_COST }),
            ),
    {
        let cells = self.tiles[pos.x as usize][pos.y as usize].connections_as_iter(pos).collect_vec();
        let mut out: Vec<(Pos, u32)> = Vec::new();
        let mut i: usize = 0;
        while i < cells.len()
            invariant
                0 <= i <= cells@.len(),
                self.wf(),
                cells@ == spec_neighbours(pos, self.tile(pos).connections),
                forall|k: int| 0 <= k < cells@.len() ==> on_grid(#[trigger] cells@[k]),
                out@ == cells@.take(i as int).map_values(
                    |p: Pos| (p, if self.tile(p).occupied { OCCUPIED_COST } else { DEFAULT_COST }),
                ),
            decreases cells@.len() - i,
        {
            let p = cells[i];
            let cost = if self.is_occupied(p) {
                OCCUPIED_COST
            } else {
                DEFAULT_COST
            };
            out.push((p, cost));
            i = i + 1;
            assert(out@ =~= cells@.take(i as int).map_values(
                |p: Pos| (p, if self.tile(p).occupied { OCCUPIED_COST } else { DEFAULT_COST }),
            ));
        }
        assert(cells@.take(cells@.len() as int) =~= cells@);
        out
    }

    /// How many connection flags the cell at `pos` has.
    pub fn connection_count(&self, pos: Pos) -> (r: u32)
        requires
            self.wf(),
            on_grid(pos),
        ensures
            r == ones(self.tile(pos).connections),
    {
        self.tiles[pos.x as usize][pos.y as usize].connections_count()
    }

    /// Whether routes may use the cell at `pos`.
    pub fn is_allowed(&self, pos: Pos) -> (r: bool)
        requires
            self.wf(),
            on_grid(pos),
        ensures
            r == self.tile(pos).allowed,
    {
        self.tiles[pos.x as usize][pos.y as usize].allowed
    }

    /// The cells the connections of the cell at `pos` lead to.
    pub fn get_dirs(&self, pos: Pos) -> (r: PathTileIter)
        requires
            self.wf(),
            on_grid(pos),
        ensures
            r.start_pos == pos,
            r.connections == self.tile(pos).connections,
    {
        self.tiles[pos.x as usize][pos.y as usize].connections_as_iter(pos)
    }

    /// Lets routes use the cell at `pos` and connects it along `direction`.
    pub fn add_allowed(&mut self, pos: Pos, direction: Direction)
        requires
            old(self).wf(),
            on_grid(pos),
        ensures
            final(self).wf(),
            final(self)@ == old(self).with_tile(
                pos,
                PathTile {
                    allowed: true,
                    connections: old(self).tile(pos).connections | spec_bit(direction),
                    ..old(self).tile(pos)
                },
            ),
    {
        let mut tile = self.tiles[pos.x as usize][pos.y as usize];
        tile.allowed = true;
        tile.connect(direction);
        self.set_tile(pos, tile);
    }

    /// Closes the cell at `pos` to routes and drops its connections.
    pub fn remove_allowed(&mut self, pos: Pos)
        requires
            old(self).wf(),
            on_grid(pos),
        ensures
            final(self).wf(),
            final(self)@ == old(self).with_tile(
                pos,
                PathTile { allowed: false, connections: 0, ..old(self).tile(pos) },
            ),
    {
        let mut tile = self.tiles[pos.x as usize][pos.y as usize];
        tile.allowed = false;
        tile.connections = 0;
        self.set_tile(pos, tile);
    }

    /// Whether something occupies the cell at `pos`.
    pub fn is_occupied(&self, pos: Pos) -> (r: bool)
        requires
            self.wf(),
            on_grid(pos),
        ensures
            r == self.tile(pos).occupied,
    {
        self.tiles[pos.x as usize][pos.y as usize].occupied
    }

    /// Marks the cell at `pos` occupied.
    pub fn add_occupied(&mut self, pos: Pos)
        requires
            old(self).wf(),
            on_grid(pos),
        ensures
            final(self).wf(),
            final(self)@ == old(self).with_tile(pos, PathTile { occupied: true, ..old(self).tile(pos) }),
    {
        let mut tile = self.tiles[pos.x as usize][pos.y as usize];
        tile.occupied = true;
        self.set_tile(pos, tile);
    }

    /// Marks the cell at `pos` free.
    pub fn remove_occupied(&mut self, pos: Pos)
        requires
            old(self).wf(),
            on_grid(pos),
        ensures
            final(self).wf(),
            final(self)@ == old(self).with_tile(pos, PathTile { occupied: false, ..old(self).tile(pos) }),
    {
        let mut tile = self.tiles[pos.x as usize][pos.y as usize];
        tile.occupied = false;
        self.set_tile(pos, tile);
    }

    /// Puts `t` in the cell at `pos`.
    fn set_tile(&mut self, pos: Pos, t: PathTile)
        requires
            old(self).wf(),
            on_grid(pos),
        ensures
            final(self).wf(),
            final(self)@ == old(self).with_tile(pos, t),
    {
        let x = pos.x as usize;
        let y = pos.y as usize;
        self.tiles[x][y] = t;
        assert(self@ =~~= old(self).with_tile(pos, t));
    }
}

/// Occupying a cell and freeing it again gives the grid back, when the cell was free.
pub proof fn lemma_occupy_free(g: PathGrid, p: Pos)
    requires
        g.wf(),
        on_grid(p),
        !g.tile(p).occupied,
    ensures
        ({
            let t1 = PathTile { occupied: true, ..g.tile(p) };
            let g1 = g.with_tile(p, t1);
            g1.update(p.x as int, g1[p.x as int].update(p.y as int, PathTile { occupied: false, ..t1 })) == g@
        }),
{
    let t1 = PathTile { occupied: true, ..g.tile(p) };
    let g1 = g.with_tile(p, t1);
    assert(g1[p.x as int].update(p.y as int, PathTile { occupied: false, ..t1 }) =~= g@[p.x as int]);
    assert(g1.update(p.x as int, g1[p.x as int].update(p.y as int, PathTile { occupied: false, ..t1 })) =~= g@);
}

} // verus!
