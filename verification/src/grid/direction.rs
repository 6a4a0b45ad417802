use vstd::prelude::*;

verus! {

/// One of the four directions on the grid.
#[derive(Clone, Copy, Debug, PartialEq, Eq, Structural)]
pub enum Direction {
    Up,
    Down,
    Left,
    Right,
}

/// The opposite of `d`.
pub open spec fn spec_inverse(d: Direction) -> Direction {
    match d {
        Direction::Up => Direction::Down,
        Direction::Down => Direction::Up,
        Direction::Left => Direction::Right,
        Direction::Right => Direction::Left,
    }
}

/// `d` turned a quarter counterclockwise.
pub open spec fn spec_rotate_left(d: Direction) -> Direction {
    match d {
        Direction::Up => Direction::Left,
        Direction::Right => Direction::Up,
        Direction::Down => Direction::Right,
        Direction::Left => Direction::Down,
    }
}

/// `d` turned a quarter clockwise.
pub open spec fn spec_rotate(d: Direction) -> Direction {
    match d {
        Direction::Up => Direction::Right,
        Direction::Right => Direction::Down,
        Direction::Down => Direction::Left,
        Direction::Left => Direction::Up,
    }
}

/// The flag that stands for `d` in a set of connections.
pub open spec fn spec_bit(d: Direction) -> u32 {
    match d {
        Direction::Up => 1,
        Direction::Down => 2,
        Direction::Left => 4,
        Direction::Right => 8,
    }
}

impl Direction {
    /// The flag that stands for this direction in a set of connections.
    pub fn bit(self) -> (r: u32)
        ensures
            r == spec_bit(self),
    {
        match self {
            Direction::Up => 1,
            Direction::Down => 2,
            Direction::Left => 4,
            Direction::Right => 8,
        }
    }

    /// The opposite direction.
    pub fn inverse(self) -> (r: Self)
        ensures
            r == spec_inverse(self),
    {
        match self {
            Direction::Up => Direction::Down,
            Direction::Down => Direction::Up,
            Direction::Left => Direction::Right,
            Direction::Right => Direction::Left,
        }
    }

    /// Whether the direction runs along a row.
    pub fn is_horizontal(self) -> (r: bool)
        ensures
            r == (self == Direction::Left || self == Direction::Right),
    {
        match self {
            Direction::Up => false,
            Direction::Down => false,
            Direction::Left => true,
            Direction::Right => true,
        }
    }

    /// The direction a quarter turn counterclockwise.
    pub fn rotate_left(self) -> (r: Self)
        ensures
            r == spec_rotate_left(self),
    {
        match self {
            Direction::Up => Direction::Left,
            Direction::Right => Direction::Up,
            Direction::Down => Direction::Right,
            Direction::Left => Direction::Down,
        }
    }

    /// The direction a quarter turn clockwise.
    pub fn _rotate(self) -> (r: Self)
        ensures
            r == spec_rotate(self),
    {
        match self {
            Direction::Up => Direction::Right,
            Direction::Right => Direction::Down,
            Direction::Down => Direction::Left,
            Direction::Left => Direction::Up,
        }
    }
}

/// Turning around twice, or turning a quarter each way, gets the direction back.
pub proof fn lemma_turns_undo(d: Direction)
    ensures
        spec_inverse(spec_inverse(d)) == d,
        spec_rotate_left(spec_rotate(d)) == d,
        spec_rotate(spec_rotate_left(d)) == d,
        spec_rotate(spec_rotate(d)) == spec_inverse(d),
{
}

} // verus!
