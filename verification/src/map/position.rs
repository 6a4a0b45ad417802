use vstd::prelude::*;
use vstd::std_specs::convert::FromSpecImpl;
use vstd::std_specs::ops::AddSpecImpl;
use vstd::std_specs::ops::DivSpecImpl;
use vstd::std_specs::ops::SubSpecImpl;
use std::ops::Add;
use std::ops::Div;
use std::ops::Sub;

use super::direction::Direction;

verus! {

/// The layer of the ground; bridges are one layer above.
pub const Z_GROUND: i16 = 0;

/// Remainder of Rust's truncating `%` (the sign follows the dividend).
pub open spec fn trunc_rem(a: int, b: int) -> int {
    let m = if b < 0 { -b } else { b };
    if a >= 0 {
        a % m
    } else {
        -((-a) % m)
    }
}

/// Quotient of Rust's truncating `/` (rounds towards zero).
pub open spec fn trunc_div(a: int, b: int) -> int {
    let m = if b < 0 { -b } else { b };
    let q = if a >= 0 { a / m } else { -((-a) / m) };
    if b < 0 { -q } else { q }
}

pub open spec fn abs(a: int) -> int {
    if a < 0 { -a } else { a }
}

pub open spec fn fits_i16(a: int) -> bool {
    i16::MIN <= a <= i16::MAX
}

/// A tile coordinate: column `x`, row `y` and layer `z`.
#[derive(Clone, Copy, PartialEq, Eq, Structural, Debug, PartialOrd, Hash)]
pub struct Position {
    pub x: i16,
    pub y: i16,
    pub z: i16,
}

/// The position `k` steps of `dir` away from `p` (as integers, before any fitting).
pub open spec fn offset(p: Position, dir: Direction, k: int) -> Position {
    Position {
        x: (p.x + k * dir.x) as i16,
        y: (p.y + k * dir.y) as i16,
        z: (p.z + k * dir.z) as i16,
    }
}

/// `p` moved by `k` steps of `dir` stays inside the `i16` range.
pub open spec fn offset_fits(p: Position, dir: Direction, k: int) -> bool {
    &&& fits_i16(p.x + k * dir.x)
    &&& fits_i16(p.y + k * dir.y)
    &&& fits_i16(p.z + k * dir.z)
}

/// `a % b` as Rust computes it on `i16`, for `b != 0`.
fn rem_toward_zero(a: i16, b: i16) -> (r: i16)
    requires
        b != 0,
    ensures
        r == trunc_rem(a as int, b as int),
{
    let a32: i32 = a as i32;
    let m: i32 = if b < 0 { -(b as i32) } else { b as i32 };
    let r: i32 = if a32 >= 0 { a32 % m } else { -((-a32) % m) };
    r as i16
}

/// `a / b` as Rust computes it on `i16`, for `b != 0` and no overflow.
fn div_toward_zero(a: i16, b: i16) -> (r: i16)
    requires
        b != 0,
        b == -1 ==> a != i16::MIN,
    ensures
        r == trunc_div(a as int, b as int),
{
    let a32: i32 = a as i32;
    let m: i32 = if b < 0 { -(b as i32) } else { b as i32 };
    let n: i32 = if a32 >= 0 { a32 } else { -a32 };
    let d: i32 = n / m;
    assert(0 <= d <= n) by (nonlinear_arith)
        requires n >= 0, m >= 1, d == n / m;
    if m == 1 {
        assert(d == n) by (nonlinear_arith)
            requires n >= 0, m == 1, d == n / m;
    } else {
        assert(d <= 16384) by (nonlinear_arith)
            requires 0 <= n <= 32768, m >= 2, d == n / m;
    }
    let q: i32 = if a32 >= 0 { d } else { -d };
    let r: i32 = if b < 0 { -q } else { q };
    assert(q == (if a >= 0 { (a as int) / (m as int) } else { -((-(a as int)) / (m as int)) }));
    assert(-32768 <= r <= 32767);
    r as i16
}

/// A position on the way between two in-range offsets is in range too.
pub proof fn lemma_offset_between(p: Position, dir: Direction, j: int, k: int)
    requires
        0 <= j <= k,
        offset_fits(p, dir, k),
    ensures
        offset_fits(p, dir, j),
{
    assert(0 <= j * dir.x <= k * dir.x || k * dir.x <= j * dir.x <= 0) by (nonlinear_arith)
        requires 0 <= j <= k;
    assert(0 <= j * dir.y <= k * dir.y || k * dir.y <= j * dir.y <= 0) by (nonlinear_arith)
        requires 0 <= j <= k;
    assert(0 <= j * dir.z <= k * dir.z || k * dir.z <= j * dir.z <= 0) by (nonlinear_arith)
        requires 0 <= j <= k;
}

/// Stepping once and then `k` more times is the same as stepping `k + 1` times.
pub proof fn lemma_offset_shift(p: Position, dir: Direction, k: int)
    requires
        plus_fits(p, dir),
    ensures
        offset(plus(p, dir), dir, k) == offset(p, dir, k + 1),
        offset_fits(plus(p, dir), dir, k) == offset_fits(p, dir, k + 1),
{
    assert((k + 1) * dir.x == dir.x + k * dir.x) by (nonlinear_arith);
    assert((k + 1) * dir.y == dir.y + k * dir.y) by (nonlinear_arith);
    assert((k + 1) * dir.z == dir.z + k * dir.z) by (nonlinear_arith);
}

/// `dir` as a plain Position difference: `p.plus(dir)` in the spec.
pub open spec fn plus(p: Position, dir: Direction) -> Position {
    offset(p, dir, 1)
}

pub open spec fn plus_fits(p: Position, dir: Direction) -> bool {
    offset_fits(p, dir, 1)
}

/// Which of the four ground directions points from `from` towards `to`
/// (ties between a column and a row difference go to the column).
pub open spec fn spec_direction_to(from: Position, to: Position) -> Direction {
    let x_diff = abs(from.x - to.x);
    let y_diff = abs(from.y - to.y);
    if to.x > from.x && x_diff >= y_diff {
        Direction::right()
    } else if to.y > from.y && y_diff > x_diff {
        Direction::down()
    } else if to.y < from.y && y_diff > x_diff {
        Direction::up()
    } else if to.x < from.x {
        Direction::left()
    } else {
        Direction::none()
    }
}

/// The line of `count` positions starting at `start` and stepping by `dir`.
pub open spec fn line_seq(start: Position, dir: Direction, count: nat) -> Seq<Position> {
    Seq::new(count, |i: int| offset(start, dir, i))
}

/// The two default connections of a tile in a 2x2 block, by the parity of its
/// coordinates: `.<` on top, `>^` below.
pub open spec fn spec_default_connections(p: Position) -> Seq<Direction> {
    let x_rem = trunc_rem(p.x as int, 2);
    let y_rem = trunc_rem(p.y as int, 2);
    if x_rem == 0 && y_rem == 0 {
        seq![Direction::down(), Direction::left()]
    } else if x_rem == 1 && y_rem == 0 {
        seq![Direction::left(), Direction::up()]
    } else if x_rem == 1 && y_rem == 1 {
        seq![Direction::up(), Direction::right()]
    } else if x_rem == 0 && y_rem == 1 {
        seq![Direction::right(), Direction::down()]
    } else {
        seq![]
    }
}

/// The corner tile of a 2x2 block that a road leaving towards `dir` starts from.
pub open spec fn spec_corner_pos(p: Position, dir: Direction) -> Position {
    if dir == Direction::left() {
        plus(p, Direction::down_right())
    } else if dir == Direction::right() {
        p
    } else if dir == Direction::down() {
        plus(p, Direction::right())
    } else if dir == Direction::up() {
        plus(p, Direction::down())
    } else {
        p
    }
}

/// The positions an area walk over a `size.x` by `size.y` rectangle anchored at
/// `start` still yields when it stands at `cur`: row by row, left to right.
pub open spec fn area_from(start: Position, cx: int, cy: int, size: Direction) -> Seq<Position>
    decreases (start.y + size.y - cy), (start.x + size.x - cx),
{
    let wrap = cx + 1 >= start.x + size.x;
    let nx: int = if wrap { start.x as int } else { cx + 1 };
    let ny: int = if wrap { cy + 1 } else { cy };
    let cur = Position { x: cx as i16, y: cy as i16, z: start.z };
    if ny >= start.y + size.y {
        seq![cur]
    } else {
        seq![cur] + area_from(start, nx, ny, size)
    }
}

/// Every position of an area walk lies in the walked rectangle (on the start's
/// layer), and the walk is no longer than the cells left in the rectangle.
pub proof fn lemma_area_from_bounds(start: Position, cx: int, cy: int, size: Direction)
    requires
        start.x <= cx < start.x + (if size.x < 1 { 1 } else { size.x as int }),
        start.y <= cy < start.y + (if size.y < 1 { 1 } else { size.y as int }),
    ensures
        forall|i: int|
            0 <= i < area_from(start, cx, cy, size).len() ==> {
                let p = #[trigger] area_from(start, cx, cy, size)[i];
                &&& start.x <= p.x < start.x + (if size.x < 1 { 1 } else { size.x as int })
                &&& start.y <= p.y < start.y + (if size.y < 1 { 1 } else { size.y as int })
                &&& p.z == start.z
            } || !(fits_i16(cx) && fits_i16(cy)) || !area_fits(start, size),
        area_from(start, cx, cy, size).len() <= (start.y + (if size.y < 1 { 1 } else { size.y as int })
            - cy - 1) * (if size.x < 1 { 1 } else { size.x as int }) + (start.x + (if size.x < 1 {
            1
        } else {
            size.x as int
        }) - cx),
    decreases (start.y + size.y - cy), (start.x + size.x - cx),
{
    let w: int = if size.x < 1 { 1 } else { size.x as int };
    let h: int = if size.y < 1 { 1 } else { size.y as int };
    let wrap = cx + 1 >= start.x + size.x;
    let nx: int = if wrap { start.x as int } else { cx + 1 };
    let ny: int = if wrap { cy + 1 } else { cy };
    let a = area_from(start, cx, cy, size);
    assert((start.y + h - cy - 1) * w >= 0) by (nonlinear_arith)
        requires start.y + h - cy - 1 >= 0, w >= 1;
    if ny >= start.y + size.y {
        assert(a.len() == 1);
    } else {
        lemma_area_from_bounds(start, nx, ny, size);
        let rest = area_from(start, nx, ny, size);
        assert(a == seq![Position { x: cx as i16, y: cy as i16, z: start.z }] + rest);
        if wrap {
            assert((start.y + h - ny - 1) * w + (start.x + w - nx) == (start.y + h - cy - 1) * w)
                by (nonlinear_arith)
                requires ny == cy + 1, nx == start.x;
        }
        assert forall|i: int| 0 <= i < a.len() implies {
            let p = #[trigger] a[i];
            &&& start.x <= p.x < start.x + w
            &&& start.y <= p.y < start.y + h
            &&& p.z == start.z
        } || !(fits_i16(cx) && fits_i16(cy)) || !area_fits(start, size) by {
            if i > 0 {
                assert(a[i] == rest[i - 1]);
                if fits_i16(cx) && fits_i16(cy) && area_fits(start, size) {
                    assert(fits_i16(nx) && fits_i16(ny));
                }
            }
        }
    }
}

/// Row-major order on the ground plane.
pub open spec fn before(p: Position, q: Position) -> bool {
    p.y < q.y || (p.y == q.y && p.x < q.x)
}

/// An area walk visits its positions in strictly increasing row-major order,
/// all at or after the position it stands at; so it never visits one twice.
pub proof fn lemma_area_from_increasing(start: Position, cx: int, cy: int, size: Direction)
    requires
        area_fits(start, size),
        start.x <= cx < start.x + (if size.x < 1 { 1 } else { size.x as int }),
        start.y <= cy < start.y + (if size.y < 1 { 1 } else { size.y as int }),
    ensures
        forall|i: int|
            0 <= i < area_from(start, cx, cy, size).len() ==> (#[trigger] area_from(start, cx, cy, size)[i]).y > cy
                || (area_from(start, cx, cy, size)[i].y == cy && area_from(start, cx, cy, size)[i].x >= cx),
        forall|i: int, j: int|
            0 <= i < j < area_from(start, cx, cy, size).len() ==> before(
                #[trigger] area_from(start, cx, cy, size)[i],
                #[trigger] area_from(start, cx, cy, size)[j],
            ),
    decreases (start.y + size.y - cy), (start.x + size.x - cx),
{
    let w: int = if size.x < 1 { 1 } else { size.x as int };
    let h: int = if size.y < 1 { 1 } else { size.y as int };
    let wrap = cx + 1 >= start.x + size.x;
    let nx: int = if wrap { start.x as int } else { cx + 1 };
    let ny: int = if wrap { cy + 1 } else { cy };
    let a = area_from(start, cx, cy, size);
    if ny >= start.y + size.y {
        assert(a.len() == 1);
        assert(a[0] == Position { x: cx as i16, y: cy as i16, z: start.z });
    } else {
        lemma_area_from_increasing(start, nx, ny, size);
        lemma_area_from_bounds(start, nx, ny, size);
        let rest = area_from(start, nx, ny, size);
        assert(a == seq![Position { x: cx as i16, y: cy as i16, z: start.z }] + rest);
        assert forall|i: int| 0 <= i < a.len() implies (#[trigger] a[i]).y > cy || (a[i].y == cy && a[i].x >= cx) by {
            if i > 0 {
                assert(a[i] == rest[i - 1]);
            }
        }
        assert forall|i: int, j: int| 0 <= i < j < a.len() implies before(#[trigger] a[i], #[trigger] a[j]) by {
            assert(a[j] == rest[j - 1]);
            if i > 0 {
                assert(a[i] == rest[i - 1]);
            }
        }
    }
}

/// The arithmetic of an area walk stays inside the `i16` range.
pub open spec fn area_fits(start: Position, size: Direction) -> bool {
    &&& start.x + size.x >= i16::MIN
    &&& start.y + size.y >= i16::MIN
    &&& start.x + (if size.x < 1 { 1 } else { size.x as int }) <= i16::MAX
    &&& start.y + (if size.y < 1 { 1 } else { size.y as int }) <= i16::MAX
}

impl Position {
    pub fn new(x: i16, y: i16) -> (p: Self)
        ensures
            p == (Position { x, y, z: Z_GROUND }),
    {
        let z = Z_GROUND;
        Position { x, y, z }
    }

    pub fn _new_z(x: i16, y: i16, z: i16) -> (p: Self)
        ensures
            p == (Position { x, y, z }),
    {
        Position { x, y, z }
    }

    /// Rounds `x` and `y` towards zero to a multiple of `amount`.
    /// `self` with `x` and `y` rounded towards zero to multiples of `amount`.
    pub open spec fn round_to_spec(&self, amount: i16) -> Position {
        Position {
            x: (self.x - trunc_rem(self.x as int, amount as int)) as i16,
            y: (self.y - trunc_rem(self.y as int, amount as int)) as i16,
            z: self.z,
        }
    }

    pub fn round_to(&self, amount: i16) -> (p: Self)
        requires
            amount != 0,
            amount == -1 ==> self.x != i16::MIN && self.y != i16::MIN,
        ensures
            p.x == self.x - trunc_rem(self.x as int, amount as int),
            p.y == self.y - trunc_rem(self.y as int, amount as int),
            p.z == self.z,
            p == self.round_to_spec(amount),
    {
        Position { x: self.x - rem_toward_zero(self.x, amount), y: self.y - rem_toward_zero(self.y, amount), z: self.z }
    }

    /// Manhattan distance on the ground plane.
    pub fn distance(&self, other: &Position) -> (d: u32)
        requires
            abs(self.x - other.x) + abs(self.y - other.y) <= u16::MAX,
        ensures
            d == abs(self.x - other.x) + abs(self.y - other.y),
    {
        let dx: i32 = self.x as i32 - other.x as i32;
        let dy: i32 = self.y as i32 - other.y as i32;
        let ax: i32 = if dx < 0 { -dx } else { dx };
        let ay: i32 = if dy < 0 { -dy } else { dy };
        (ax + ay) as u32
    }

    pub fn direction_to(self: Position, new_pos: Position) -> (d: Direction)
        requires
            fits_i16(self.x - new_pos.x),
            fits_i16(self.y - new_pos.y),
            self.x - new_pos.x != i16::MIN,
            self.y - new_pos.y != i16::MIN,
        ensures
            d == spec_direction_to(self, new_pos),
    {
        let xd = self.x - new_pos.x;
        let yd = self.y - new_pos.y;
        let x_diff = if xd < 0 { -xd } else { xd };
        let y_diff = if yd < 0 { -yd } else { yd };
        if new_pos.x > self.x && x_diff >= y_diff {
            Direction::right()
        } else if new_pos.y > self.y && y_diff > x_diff {
            Direction::down()
        } else if new_pos.y < self.y && y_diff > x_diff {
            Direction::up()
        } else if new_pos.x < self.x {
            Direction::left()
        } else {
            Direction::none()
        }
    }

    /// Walks from `self` towards `destination` along the direction that
    /// `direction_to` picks, destination included.
    pub fn iter_line_to(&self, destination: Position) -> (r: (PositionIterator, Direction))
        requires
            fits_i16(self.x - destination.x),
            fits_i16(self.y - destination.y),
            self.x - destination.x != i16::MIN,
            self.y - destination.y != i16::MIN,
            offset_fits(
                *self,
                spec_direction_to(*self, destination),
                (if spec_direction_to(*self, destination).y != 0 {
                    abs(destination.y - self.y)
                } else if spec_direction_to(*self, destination).x != 0 {
                    abs(destination.x - self.x)
                } else {
                    0
                }) + 1,
            ),
        ensures
            r.1 == spec_direction_to(*self, destination),
            r.0.wf(),
            r.0.direction() == r.1,
            r.0@.len() == (if r.1.y != 0 {
                abs(destination.y - self.y)
            } else if r.1.x != 0 {
                abs(destination.x - self.x)
            } else {
                0
            }) + 1,
            r.0@ == line_seq(*self, r.1, r.0@.len()),
    {
        let direction = self.direction_to(destination);
        let count: usize = if direction.y != 0 {
            let d: i16 = destination.y - self.y;
            (if d < 0 { -d } else { d }) as usize
        } else if direction.x != 0 {
            let d: i16 = destination.x - self.x;
            (if d < 0 { -d } else { d }) as usize
        } else {
            0
        };
        (PositionIterator { position: *self, direction, count: count + 1 }, direction)
    }

    /// Walks the `area.x` by `area.y` rectangle whose top-left tile is `self`,
    /// row by row; the first tile is always yielded.
    pub fn iter_area(&self, area: Direction) -> (r: PositionAreaIterator)
        requires
            area_fits(*self, area),
        ensures
            r.wf(),
            r@ == area_from(*self, self.x as int, self.y as int, area),
    {
        PositionAreaIterator { current: *self, start: *self, size: area, finished: false }
    }

    pub fn corner_pos(&self, dir: Direction) -> (p: Self)
        requires
            plus_fits(*self, Direction::down_right()),
        ensures
            p == spec_corner_pos(*self, dir),
    {
        if dir == Direction::left() {
            *self + Direction::down_right()
        } else if dir == Direction::right() {
            *self
        } else if dir == Direction::down() {
            *self + Direction::right()
        } else if dir == Direction::up() {
            *self + Direction::down()
        } else {
            *self
        }
    }

    /// `self` moved one step of `dir`, or `None` where that leaves the `i16` range.
    pub fn checked_plus(&self, dir: Direction) -> (r: Option<Position>)
        ensures
            r == (if plus_fits(*self, dir) {
                Some(plus(*self, dir))
            } else {
                None
            }),
    {
        let x: i32 = self.x as i32 + dir.x as i32;
        let y: i32 = self.y as i32 + dir.y as i32;
        let z: i32 = self.z as i32 + dir.z as i32;
        if -32768 <= x && x <= 32767 && -32768 <= y && y <= 32767 && -32768 <= z && z <= 32767 {
            Some(Position { x: x as i16, y: y as i16, z: z as i16 })
        } else {
            None
        }
    }

    /// `.<` / `>^`: the connections of a roundabout-shaped 2x2 block; empty for
    /// tiles with a negative coordinate.
    pub fn default_connections(&self) -> (r: Vec<Direction>)
        ensures
            r@ == spec_default_connections(*self),
    {
        let x_rem = self.x % 2;
        let y_rem = self.y % 2;
        if x_rem == 0 && y_rem == 0 {
            vec![Direction::down(), Direction::left()]
        } else if x_rem == 1 && y_rem == 0 {
            vec![Direction::left(), Direction::up()]
        } else if x_rem == 1 && y_rem == 1 {
            vec![Direction::up(), Direction::right()]
        } else if x_rem == 0 && y_rem == 1 {
            vec![Direction::right(), Direction::down()]
        } else {
            Vec::new()
        }
    }
}

impl From<(i16, i16)> for Position {
    fn from(pos: (i16, i16)) -> (r: Self) {
        Position::new(pos.0, pos.1)
    }
}

impl FromSpecImpl<(i16, i16)> for Position {
    open spec fn obeys_from_spec() -> bool {
        true
    }

    open spec fn from_spec(v: (i16, i16)) -> Position {
        Position { x: v.0, y: v.1, z: Z_GROUND }
    }
}

impl From<(i16, i16, i16)> for Position {
    fn from(pos: (i16, i16, i16)) -> (r: Self) {
        Position::_new_z(pos.0, pos.1, pos.2)
    }
}

impl FromSpecImpl<(i16, i16, i16)> for Position {
    open spec fn obeys_from_spec() -> bool {
        true
    }

    open spec fn from_spec(v: (i16, i16, i16)) -> Position {
        Position { x: v.0, y: v.1, z: v.2 }
    }
}

impl Add<Direction> for Position {
    type Output = Self;

    fn add(self, dir: Direction) -> (r: Self) {
        Position { x: self.x + dir.x as i16, y: self.y + dir.y as i16, z: self.z + dir.z as i16 }
    }
}

impl AddSpecImpl<Direction> for Position {
    open spec fn obeys_add_spec() -> bool {
        true
    }

    open spec fn add_req(self, rhs: Direction) -> bool {
        plus_fits(self, rhs)
    }

    open spec fn add_spec(self, rhs: Direction) -> Position {
        plus(self, rhs)
    }
}

/// The step from `b` to `a`, each component truncated to `i8`.
pub open spec fn spec_difference(a: Position, b: Position) -> Direction {
    Direction { x: (a.x - b.x) as i8, y: (a.y - b.y) as i8, z: (a.z - b.z) as i8 }
}

pub open spec fn difference_fits(a: Position, b: Position) -> bool {
    fits_i16(a.x - b.x) && fits_i16(a.y - b.y) && fits_i16(a.z - b.z)
}

impl Sub<Position> for Position {
    type Output = Direction;

    fn sub(self, other: Position) -> (r: Direction) {
        Direction {
            x: (self.x - other.x) as i8,
            y: (self.y - other.y) as i8,
            z: (self.z - other.z) as i8,
        }
    }
}

impl SubSpecImpl<Position> for Position {
    open spec fn obeys_sub_spec() -> bool {
        true
    }

    open spec fn sub_req(self, rhs: Position) -> bool {
        difference_fits(self, rhs)
    }

    open spec fn sub_spec(self, rhs: Position) -> Direction {
        spec_difference(self, rhs)
    }
}

/// Every coordinate divided (towards zero) by `k`.
pub open spec fn spec_quotient(p: Position, k: i16) -> Position {
    Position {
        x: trunc_div(p.x as int, k as int) as i16,
        y: trunc_div(p.y as int, k as int) as i16,
        z: trunc_div(p.z as int, k as int) as i16,
    }
}

impl Div<i16> for Position {
    type Output = Position;

    fn div(self, other: i16) -> (r: Position) {
        Self {
            x: div_toward_zero(self.x, other),
            y: div_toward_zero(self.y, other),
            z: div_toward_zero(self.z, other),
        }
    }
}

impl DivSpecImpl<i16> for Position {
    open spec fn obeys_div_spec() -> bool {
        true
    }

    open spec fn div_req(self, rhs: i16) -> bool {
        rhs != 0 && (rhs == -1 ==> self.x != i16::MIN && self.y != i16::MIN && self.z != i16::MIN)
    }

    open spec fn div_spec(self, rhs: i16) -> Position {
        spec_quotient(self, rhs)
    }
}

/// The positions of a straight line, yielded one by one.
pub struct PositionIterator {
    position: Position,
    direction: Direction,
    pub count: usize,
}

impl PositionIterator {
    pub closed spec fn direction(&self) -> Direction {
        self.direction
    }

    /// The positions still to come.
    pub closed spec fn view(&self) -> Seq<Position> {
        line_seq(self.position, self.direction, self.count as nat)
    }

    /// Every step, including the one after the last yield, stays in range.
    pub closed spec fn wf(&self) -> bool {
        offset_fits(self.position, self.direction, self.count as int)
    }

    pub fn next(&mut self) -> (r: Option<Position>)
        requires
            old(self).wf(),
        ensures
            final(self).wf(),
            final(self).direction() == old(self).direction(),
            old(self)@.len() == 0 ==> r is None && final(self)@ == old(self)@,
            old(self)@.len() > 0 ==> r == Some(old(self)@[0]) && final(self)@ == old(self)@.drop_first(),
    {
        if self.count == 0 {
            None
        } else {
            proof {
                lemma_offset_between(self.position, self.direction, 1, self.count as int);
                lemma_offset_shift(self.position, self.direction, self.count - 1);
                assert(offset(self.position, self.direction, 0) == self.position);
                assert forall|i: int| 0 <= i < self.count - 1 implies offset(
                    plus(self.position, self.direction),
                    self.direction,
                    i,
                ) == offset(self.position, self.direction, i + 1) by {
                    lemma_offset_shift(self.position, self.direction, i);
                }
            }
            self.count = self.count - 1;
            let old_pos = self.position;
            self.position = self.position + self.direction;
            assert(self@ =~= old(self)@.drop_first());
            Some(old_pos)
        }
    }

    /// All remaining positions, in order.
    pub fn collect_vec(self) -> (r: Vec<Position>)
        requires
            self.wf(),
        ensures
            r@ == self@,
    {
        let mut it = self;
        let mut out: Vec<Position> = Vec::new();
        let ghost all = self@;
        while it.count > 0
            invariant
                it.wf(),
                all == out@ + it@,
            decreases it.count,
        {
            let p = it.next();
            match p {
                Some(p) => {
                    out.push(p);
                },
                None => {},
            }
            assert(all =~= out@ + it@);
        }
        assert(it@.len() == 0);
        assert(all =~= out@);
        out
    }
}

/// The positions of a rectangle, yielded row by row.
pub struct PositionAreaIterator {
    start: Position,
    current: Position,
    size: Direction,
    finished: bool,
}

impl PositionAreaIterator {
    pub closed spec fn view(&self) -> Seq<Position> {
        if self.finished {
            seq![]
        } else {
            area_from(self.start, self.current.x as int, self.current.y as int, self.size)
        }
    }

    pub closed spec fn wf(&self) -> bool {
        &&& area_fits(self.start, self.size)
        &&& self.current.z == self.start.z
        &&& !self.finished ==> self.current.x < self.start.x + (if self.size.x < 1 { 1 } else { self.size.x as int })
        &&& !self.finished ==> self.current.y < self.start.y + (if self.size.y < 1 { 1 } else { self.size.y as int })
    }

    pub fn next(&mut self) -> (r: Option<Position>)
        requires
            old(self).wf(),
        ensures
            final(self).wf(),
            old(self)@.len() == 0 ==> r is None && final(self)@ == old(self)@,
            old(self)@.len() > 0 ==> r == Some(old(self)@[0]) && final(self)@ == old(self)@.drop_first(),
    {
        if self.finished {
            return None;
        }
        let current = self.current;
        self.current.x = self.current.x + 1;
        if self.current.x >= self.start.x + self.size.x as i16 {
            self.current.y = self.current.y + 1;
            self.current.x = self.start.x;
        }
        if self.current.y >= self.start.y + self.size.y as i16 {
            self.finished = true;
        }
        proof {
            reveal_with_fuel(area_from, 2);
            if !self.finished {
                assert(self@ =~= old(self)@.drop_first());
            } else {
                assert(self@ =~= old(self)@.drop_first());
            }
        }
        Some(current)
    }

    /// All remaining positions, in order.
    pub fn collect_vec(self) -> (r: Vec<Position>)
        requires
            self.wf(),
        ensures
            r@ == self@,
    {
        let mut it = self;
        let mut out: Vec<Position> = Vec::new();
        let ghost all = self@;
        loop
            invariant
                it.wf(),
                all == self@,
                all == out@ + it@,
            decreases it@.len(),
        {
            let ghost before = it@;
            match it.next() {
                Some(p) => {
                    out.push(p);
                    assert(all =~= out@ + it@);
                },
                None => {
                    assert(all =~= out@);
                    return out;
                },
            }
        }
    }
}

/// Law: rounding to even tiles twice is rounding once.
pub proof fn lemma_round_to_twice(p: Position)
    ensures
        p.round_to_spec(2).round_to_spec(2) == p.round_to_spec(2),
{
    let q = p.round_to_spec(2);
    assert(trunc_rem(q.x as int, 2) == 0);
    assert(trunc_rem(q.y as int, 2) == 0);
}

} // verus!
