use vstd::prelude::*;
use vstd::std_specs::ops::AddSpecImpl;
use vstd::std_specs::ops::MulSpecImpl;
use vstd::std_specs::convert::FromSpecImpl;
use std::ops::Add;
use std::ops::Mul;

use crate::rng::gen_range_usize;

verus! {

/// A step on the map: a change of column (`x`), row (`y`) and layer (`z`).
#[derive(Clone, Copy, Debug, PartialEq, Eq, Structural, Hash)]
pub struct Direction {
    pub x: i8,
    pub y: i8,
    pub z: i8,
}

/// The four ground-level unit steps, in the order `Direction::ALL` lists them.
pub open spec fn spec_all_directions() -> Seq<Direction> {
    seq![
        Direction { x: 1, y: 0, z: 0 },
        Direction { x: -1i8, y: 0, z: 0 },
        Direction { x: 0, y: -1i8, z: 0 },
        Direction { x: 0, y: 1, z: 0 },
    ]
}

/// The steps to the tiles of a 2x2 block from its top-left tile.
pub open spec fn spec_square() -> Seq<Direction> {
    seq![
        Direction { x: 0, y: 0, z: 0 },
        Direction { x: 1, y: 0, z: 0 },
        Direction { x: 0, y: 1, z: 0 },
        Direction { x: 1, y: 1, z: 0 },
    ]
}

/// `d` is one of the four ground-level unit steps.
pub open spec fn is_cardinal(d: Direction) -> bool {
    spec_all_directions().contains(d)
}

impl Direction {
    /// No movement at all.
    #[verifier::allow_in_spec]
    pub fn none() -> Self
        returns
            (Direction { x: 0, y: 0, z: 0 }),
    {
        Direction { x: 0, y: 0, z: 0 }
    }

    /// One column to the right.
    #[verifier::allow_in_spec]
    pub fn right() -> Self
        returns
            (Direction { x: 1, y: 0, z: 0 }),
    {
        Direction { x: 1, y: 0, z: 0 }
    }

    /// One column to the left.
    #[verifier::allow_in_spec]
    pub fn left() -> Self
        returns
            (Direction { x: -1i8, y: 0, z: 0 }),
    {
        Direction { x: -1i8, y: 0, z: 0 }
    }

    /// One row up (towards smaller `y`).
    #[verifier::allow_in_spec]
    pub fn up() -> Self
        returns
            (Direction { x: 0, y: -1i8, z: 0 }),
    {
        Direction { x: 0, y: -1i8, z: 0 }
    }

    /// One row down (towards larger `y`).
    #[verifier::allow_in_spec]
    pub fn down() -> Self
        returns
            (Direction { x: 0, y: 1, z: 0 }),
    {
        Direction { x: 0, y: 1, z: 0 }
    }

    /// One row down and one column right.
    #[verifier::allow_in_spec]
    pub fn down_right() -> Self
        returns
            (Direction { x: 1, y: 1, z: 0 }),
    {
        Direction { x: 1, y: 1, z: 0 }
    }

    /// One layer up (onto a bridge).
    #[verifier::allow_in_spec]
    pub fn layer_up() -> Self
        returns
            (Direction { x: 0, y: 0, z: 1 }),
    {
        Direction { x: 0, y: 0, z: 1 }
    }

    /// One layer down.
    #[verifier::allow_in_spec]
    pub fn layer_down() -> Self
        returns
            (Direction { x: 0, y: 0, z: -1i8 }),
    {
        Direction { x: 0, y: 0, z: -1i8 }
    }

    /// Two layers down.
    #[verifier::allow_in_spec]
    pub fn layer_down_2() -> Self
        returns
            (Direction { x: 0, y: 0, z: -2i8 }),
    {
        Direction { x: 0, y: 0, z: -2i8 }
    }

    /// The steps to the four tiles of a 2x2 block from its top-left tile:
    /// itself, right, down, down-right.
    pub fn square() -> (r: [Direction; 4])
        ensures
            r@ == spec_square(),
    {
        let r = [Direction::none(), Direction::right(), Direction::down(), Direction::down_right()];
        assert(r@ =~= spec_square());
        r
    }

    /// The four ground-level unit steps: right, left, up, down.
    pub fn all() -> (r: [Direction; 4])
        ensures
            r@ == spec_all_directions(),
    {
        let r = [Direction::right(), Direction::left(), Direction::up(), Direction::down()];
        assert(r@ =~= spec_all_directions());
        r
    }

    pub fn new(x: i8, y: i8, z: i8) -> (d: Self)
        ensures
            d == (Direction { x, y, z }),
    {
        Direction { x, y, z }
    }

    /// The opposite step on the ground plane; the layer step is kept.
    pub open spec fn spec_inverse(self) -> Direction {
        Direction { x: (-self.x) as i8, y: (-self.y) as i8, z: self.z }
    }

    pub fn inverse(&self) -> (r: Self)
        requires
            self.x != i8::MIN,
            self.y != i8::MIN,
        ensures
            r == self.spec_inverse(),
            r.x == -self.x,
            r.y == -self.y,
            r.z == self.z,
    {
        Direction::new(-self.x, -self.y, self.z)
    }

    /// One of the four ground-level unit steps, picked at random.
    pub fn random() -> (r: Self)
        ensures
            is_cardinal(r),
    {
        let all = Direction::all();
        let i = gen_range_usize(0, 4);
        let r = all[i];
        assert(spec_all_directions()[i as int] == r);
        r
    }

    pub fn is_horizontal(self) -> (r: bool)
        ensures
            r == (self.y == 0),
    {
        self.y == 0
    }

    /// Quarter turn counter-clockwise on screen (`RIGHT` becomes `UP`).
    pub open spec fn spec_rotate_left(self) -> Direction {
        Direction { x: self.y, y: (-self.x) as i8, z: self.z }
    }

    /// Quarter turn clockwise on screen (`RIGHT` becomes `DOWN`).
    pub open spec fn spec_rotate_right(self) -> Direction {
        Direction { x: (-self.y) as i8, y: self.x, z: self.z }
    }

    pub fn rotate_right(self) -> (r: Self)
        requires
            self.y != i8::MIN,
        ensures
            r == self.spec_rotate_right(),
    {
        Direction::new(-self.y, self.x, self.z)
    }

    pub fn rotate_left(self) -> (r: Self)
        requires
            self.x != i8::MIN,
        ensures
            r == self.spec_rotate_left(),
            r.x == self.y,
            r.y == -self.x,
            r.z == self.z,
    {
        Direction::new(self.y, -self.x, self.z)
    }

    /// Sum of two steps, component by component.
    pub open spec fn spec_plus(self, other: Direction) -> Direction {
        Direction {
            x: (self.x + other.x) as i8,
            y: (self.y + other.y) as i8,
            z: (self.z + other.z) as i8,
        }
    }

    /// The sum of two steps fits in the component type.
    pub open spec fn plus_fits(self, other: Direction) -> bool {
        &&& i8::MIN <= self.x + other.x <= i8::MAX
        &&& i8::MIN <= self.y + other.y <= i8::MAX
        &&& i8::MIN <= self.z + other.z <= i8::MAX
    }

    /// A step scaled by a factor, component by component.
    pub open spec fn spec_times(self, k: i8) -> Direction {
        Direction { x: (self.x * k) as i8, y: (self.y * k) as i8, z: (self.z * k) as i8 }
    }

    pub open spec fn times_fits(self, k: i8) -> bool {
        &&& i8::MIN <= self.x * k <= i8::MAX
        &&& i8::MIN <= self.y * k <= i8::MAX
        &&& i8::MIN <= self.z * k <= i8::MAX
    }
}

impl From<(i8, i8)> for Direction {
    fn from(pos: (i8, i8)) -> (r: Self) {
        Direction::new(pos.0, pos.1, 0)
    }
}

impl FromSpecImpl<(i8, i8)> for Direction {
    open spec fn obeys_from_spec() -> bool {
        true
    }

    open spec fn from_spec(v: (i8, i8)) -> Direction {
        Direction { x: v.0, y: v.1, z: 0 }
    }
}

impl From<(i8, i8, i8)> for Direction {
    fn from(pos: (i8, i8, i8)) -> (r: Self) {
        Direction::new(pos.0, pos.1, pos.2)
    }
}

impl FromSpecImpl<(i8, i8, i8)> for Direction {
    open spec fn obeys_from_spec() -> bool {
        true
    }

    open spec fn from_spec(v: (i8, i8, i8)) -> Direction {
        Direction { x: v.0, y: v.1, z: v.2 }
    }
}

impl Add for Direction {
    type Output = Self;

    fn add(self, other: Self) -> (r: Self) {
        Self { x: self.x + other.x, y: self.y + other.y, z: self.z + other.z }
    }
}

impl AddSpecImpl for Direction {
    open spec fn obeys_add_spec() -> bool {
        true
    }

    open spec fn add_req(self, rhs: Direction) -> bool {
        self.plus_fits(rhs)
    }

    open spec fn add_spec(self, rhs: Direction) -> Direction {
        self.spec_plus(rhs)
    }
}

impl Mul<i8> for Direction {
    type Output = Self;

    fn mul(self, other: i8) -> (r: Self) {
        Self { x: self.x * other, y: self.y * other, z: self.z * other }
    }
}

impl MulSpecImpl<i8> for Direction {
    open spec fn obeys_mul_spec() -> bool {
        true
    }

    open spec fn mul_req(self, rhs: i8) -> bool {
        self.times_fits(rhs)
    }

    open spec fn mul_spec(self, rhs: i8) -> Direction {
        self.spec_times(rhs)
    }
}

/// Law: turning around twice, or a quarter turn each way, gives the step back
/// (for steps whose components can be negated).
pub proof fn lemma_direction_turns(d: Direction)
    requires
        d.x != i8::MIN,
        d.y != i8::MIN,
    ensures
        d.spec_inverse().spec_inverse() == d,
        d.spec_rotate_left().spec_rotate_right() == d,
        d.spec_rotate_right().spec_rotate_left() == d,
        d.spec_rotate_left().spec_rotate_left() == d.spec_inverse(),
{
}

} // verus!
