use vstd::prelude::*;

use crate::map::Direction;
use crate::map::without_first;

use super::connections::{vec_remove_first, with_added};
use super::reservation::Reserved;

verus! {

/// A road tile: whether vehicles entering it yield, who holds it, and the
/// directions it can be left by, in the order they were added.
#[derive(Clone, PartialEq, Eq, Debug)]
pub struct Road {
    pub should_yield: bool,
    pub reserved: Reserved,
    pub connections: Vec<Direction>,
}

/// The connections of the road that character `c` draws (`None` for other characters).
pub open spec fn road_char_connections(c: char) -> Option<Seq<Direction>> {
    if c == '>' || c == 'y' {
        Some(seq![Direction::right()])
    } else if c == '<' {
        Some(seq![Direction::left()])
    } else if c == '^' {
        Some(seq![Direction::up()])
    } else if c == '.' {
        Some(seq![Direction::down()])
    } else if c == 'l' {
        Some(seq![Direction::left(), Direction::down()])
    } else if c == 'r' {
        Some(seq![Direction::left(), Direction::up()])
    } else if c == 'L' {
        Some(seq![Direction::right(), Direction::down()])
    } else if c == 'R' {
        Some(seq![Direction::right(), Direction::up()])
    } else if c == 'u' {
        Some(seq![Direction { x: 1, y: 0, z: 1 }])
    } else if c == 'd' {
        Some(seq![Direction { x: 1, y: 0, z: -1i8 }])
    } else {
        None
    }
}

impl View for Road {
    type V = Seq<Direction>;

    open spec fn view(&self) -> Seq<Direction> {
        self.connections@
    }
}

impl Road {
    /// A road without connections that nobody holds.
    pub fn new() -> (r: Self)
        ensures
            r@ == Seq::<Direction>::empty(),
            !r.should_yield,
    {
        Road { should_yield: false, reserved: Reserved::new(), connections: Vec::new() }
    }

    /// The road that character `c` draws in a map string (`None` for other characters).
    pub fn new_from_char(c: char) -> (r: Option<Self>)
        ensures
            r is Some <==> road_char_connections(c) is Some,
            r matches Some(road) ==> road@ == road_char_connections(c)->0 && road.should_yield == (c == 'y'),
    {
        let mut road = Road::new();
        if c == '>' {
            road.connect(Direction::right());
        } else if c == '<' {
            road.connect(Direction::left());
        } else if c == '^' {
            road.connect(Direction::up());
        } else if c == '.' {
            road.connect(Direction::down());
        } else if c == 'y' {
            road.connect(Direction::right());
            road.should_yield = true;
        } else if c == 'l' {
            road.connect(Direction::left());
            road.connect(Direction::down());
        } else if c == 'r' {
            road.connect(Direction::left());
            road.connect(Direction::up());
        } else if c == 'L' {
            road.connect(Direction::right());
            road.connect(Direction::down());
        } else if c == 'R' {
            road.connect(Direction::right());
            road.connect(Direction::up());
        } else if c == 'u' {
            road.connect(Direction::right() + Direction::layer_up());
        } else if c == 'd' {
            road.connect(Direction::right() + Direction::layer_down());
        } else {
            return None;
        }
        proof {
            let e = Seq::<Direction>::empty();
            assert(!e.contains(Direction::right()));
            assert(!e.contains(Direction::left()));
            assert(!e.contains(Direction::up()));
            assert(!e.contains(Direction::down()));
            assert(!e.contains(Direction { x: 1, y: 0, z: 1 }));
            assert(!e.contains(Direction { x: 1, y: 0, z: -1i8 }));
            assert(seq![Direction::left()][0] != Direction::down());
            assert(seq![Direction::left()][0] != Direction::up());
            assert(seq![Direction::right()][0] != Direction::down());
            assert(seq![Direction::right()][0] != Direction::up());
            assert(e.push(Direction::left()) =~= seq![Direction::left()]);
            assert(e.push(Direction::right()) =~= seq![Direction::right()]);
            assert(e.push(Direction::up()) =~= seq![Direction::up()]);
            assert(e.push(Direction::down()) =~= seq![Direction::down()]);
            assert(e.push(Direction { x: 1, y: 0, z: 1 }) =~= seq![Direction { x: 1, y: 0, z: 1 }]);
            assert(e.push(Direction { x: 1, y: 0, z: -1i8 }) =~= seq![Direction { x: 1, y: 0, z: -1i8 }]);
            assert(seq![Direction::left()].push(Direction::down()) =~= seq![Direction::left(), Direction::down()]);
            assert(seq![Direction::left()].push(Direction::up()) =~= seq![Direction::left(), Direction::up()]);
            assert(seq![Direction::right()].push(Direction::down()) =~= seq![Direction::right(), Direction::down()]);
            assert(seq![Direction::right()].push(Direction::up()) =~= seq![Direction::right(), Direction::up()]);
        }
        Some(road)
    }

    /// Whether `dir` is one of the road's connections.
    pub fn is_connected(&self, dir: Direction) -> (r: bool)
        ensures
            r == self@.contains(dir),
    {
        let mut i: usize = 0;
        while i < self.connections.len()
            invariant
                0 <= i <= self.connections@.len(),
                forall|j: int| 0 <= j < i ==> self.connections@[j] != dir,
            decreases self.connections@.len() - i,
        {
            if self.connections[i] == dir {
                return true;
            }
            i = i + 1;
        }
        false
    }

    /// Connects `dir`, unless it already is.
    pub fn connect(&mut self, dir: Direction)
        ensures
            final(self)@ == with_added(old(self)@, dir),
            final(self).should_yield == old(self).should_yield,
            final(self).reserved == old(self).reserved,
    {
        if !self.is_connected(dir) {
            self.connections.push(dir);
        }
    }

    /// Disconnects `dir`: its first occurrence makes room for the last connection.
    pub fn disconnect(&mut self, dir: Direction)
        ensures
            final(self)@ == without_first(old(self)@, dir),
            final(self).should_yield == old(self).should_yield,
            final(self).reserved == old(self).reserved,
    {
        vec_remove_first(&mut self.connections, dir);
    }

    /// The number of connections, as a `u32` (truncating).
    pub fn connection_count(&self) -> (r: u32)
        ensures
            r == self@.len() as u32,
    {
        self.connections.len() as u32
    }

    /// The connections, in order.
    pub fn iter_connections(&self) -> (r: Vec<Direction>)
        ensures
            r@ == self@,
    {
        self.connections.clone()
    }
}

/// Connecting a direction twice is connecting it once, and connecting a new
/// direction then disconnecting it gives the connections back.
pub proof fn lemma_connect_idempotent(s: Seq<Direction>, dir: Direction)
    ensures
        with_added(with_added(s, dir), dir) == with_added(s, dir),
        !s.contains(dir) ==> without_first(with_added(s, dir), dir) == s,
{
    if !s.contains(dir) {
        let t = s.push(dir);
        assert(t.contains(dir)) by {
            assert(t[s.len() as int] == dir);
        }
        t.index_of_first_ensures(dir);
        assert(t.index_of_first(dir) == Some(s.len() as int)) by {
            let k = t.index_of_first(dir)->0;
            if k < s.len() {
                assert(s[k] == dir);
                assert(s.contains(dir));
            }
        }
        assert(t.drop_last() =~= s);
    }
}

} // verus!
