use vstd::prelude::*;

use crate::hash_map_id::Id;
use crate::map::direction::Direction;
use crate::map::position::{spec_default_connections, Position};

use super::reservation::ReservedList;

verus! {

/// A road tile: the directions a vehicle may leave it by, whether vehicles
/// entering it yield, the station it belongs to and who has reserved it.
#[derive(Clone, PartialEq, Eq, Debug)]
pub struct Road {
    pub should_yield: bool,
    pub station: Option<Id>,
    pub reserved: ReservedList,
    pub connections: Vec<Direction>,
}

/// The connections that building a road from character `c` yields, `None` for
/// characters that are no road.
pub open spec fn char_connections(c: char) -> Option<Seq<Direction>> {
    if c == '*' {
        Some(seq![])
    } else if c == '>' || c == 'y' {
        Some(seq![Direction::right()])
    } else if c == '<' {
        Some(seq![Direction::left()])
    } else if c == '^' {
        Some(seq![Direction::up()])
    } else if c == '.' {
        Some(seq![Direction::down()])
    } else if c == 'l' {
        Some(seq![Direction::left(), Direction::down()])
    } else if c == 'r' {
        Some(seq![Direction::left(), Direction::up()])
    } else if c == 'L' {
        Some(seq![Direction::right(), Direction::down()])
    } else if c == 'R' {
        Some(seq![Direction::right(), Direction::up()])
    } else if c == '}' {
        Some(seq![Direction { x: 1, y: 0, z: 1 }])
    } else if c == ']' {
        Some(seq![Direction { x: 1, y: 0, z: -1i8 }])
    } else if c == '{' {
        Some(seq![Direction { x: -1i8, y: 0, z: 1 }])
    } else if c == '[' {
        Some(seq![Direction { x: -1i8, y: 0, z: -1i8 }])
    } else {
        None
    }
}

/// `s` without its element at `i`, the last element moved into its place.
pub open spec fn swap_removed<T>(s: Seq<T>, i: int) -> Seq<T> {
    if i == s.len() - 1 {
        s.drop_last()
    } else {
        s.drop_last().update(i, s.last())
    }
}

/// The connections after connecting `dir`: appended unless it is `NONE` or already there.
pub open spec fn connected(s: Seq<Direction>, dir: Direction) -> Seq<Direction> {
    if dir != Direction::none() && !s.contains(dir) {
        s.push(dir)
    } else {
        s
    }
}

/// The connections after disconnecting `dir`: its first occurrence is swap-removed.
pub open spec fn disconnected(s: Seq<Direction>, dir: Direction) -> Seq<Direction> {
    if s.contains(dir) {
        swap_removed(s, s.index_of(dir))
    } else {
        s
    }
}

impl Road {
    /// The directions a vehicle may leave this tile by, in the order they were added.
    pub open spec fn connections(&self) -> Seq<Direction> {
        self.connections@
    }

    /// No direction is listed twice and `NONE` is never listed.
    pub open spec fn wf(&self) -> bool {
        &&& self.connections().no_duplicates()
        &&& !self.connections().contains(Direction::none())
    }

    pub fn new_connected(dir: Direction, station: Option<Id>) -> (r: Self)
        ensures
            r.wf(),
            r.station == station,
            !r.should_yield,
            r.reserved@ == Seq::<super::reservation::Reserved>::empty(),
            r.connections() == (if dir != Direction::none() {
                seq![dir]
            } else {
                seq![]
            }),
    {
        let connections = if dir != Direction::none() {
            vec![dir]
        } else {
            Vec::new()
        };
        let r = Road { station, should_yield: false, reserved: ReservedList::new(), connections };
        assert(r.connections().no_duplicates());
        r
    }

    /// A copy of this road.
    pub fn duplicate(&self) -> (r: Self)
        ensures
            r.should_yield == self.should_yield,
            r.station == self.station,
            r.reserved@ == self.reserved@,
            r.connections() == self.connections(),
            r.wf() == self.wf(),
    {
        let mut connections: Vec<Direction> = Vec::new();
        let mut i: usize = 0;
        while i < self.connections.len()
            invariant
                0 <= i <= self.connections.len(),
                connections@ == self.connections@.take(i as int),
            decreases self.connections.len() - i,
        {
            connections.push(self.connections[i]);
            i = i + 1;
            assert(connections@ =~= self.connections@.take(i as int));
        }
        assert(self.connections@.take(self.connections@.len() as int) =~= self.connections@);
        Road {
            should_yield: self.should_yield,
            station: self.station,
            reserved: self.reserved.duplicate(),
            connections,
        }
    }

    pub fn new() -> (r: Self)
        ensures
            r.wf(),
            r.station is None,
            !r.should_yield,
            r.reserved@ == Seq::<super::reservation::Reserved>::empty(),
            r.connections() == Seq::<Direction>::empty(),
    {
        Road {
            station: None,
            should_yield: false,
            reserved: ReservedList::new(),
            connections: Vec::new(),
        }
    }

    /// The road that character `c` draws in a map string (`None` for other characters).
    pub fn new_from_char(c: char) -> (r: Option<Self>)
        ensures
            r is Some <==> char_connections(c) is Some,
            r matches Some(road) ==> {
                &&& road.wf()
                &&& road.connections() == char_connections(c).unwrap()
                &&& road.should_yield == (c == 'y')
                &&& road.station is None
                &&& road.reserved@ == Seq::<super::reservation::Reserved>::empty()
            },
    {
        let mut road = Road::new();
        if c == '*' {
        } else if c == '>' {
            road.connect(Direction::right());
        } else if c == '<' {
            road.connect(Direction::left());
        } else if c == '^' {
            road.connect(Direction::up());
        } else if c == '.' {
            road.connect(Direction::down());
        } else if c == 'y' {
            road.connect(Direction::right());
            road.should_yield = true;
        } else if c == 'l' {
            road.connect(Direction::left());
            road.connect(Direction::down());
        } else if c == 'r' {
            road.connect(Direction::left());
            road.connect(Direction::up());
        } else if c == 'L' {
            road.connect(Direction::right());
            road.connect(Direction::down());
        } else if c == 'R' {
            road.connect(Direction::right());
            road.connect(Direction::up());
        } else if c == '}' {
            road.connect(Direction::right() + Direction::layer_up());
        } else if c == ']' {
            road.connect(Direction::right() + Direction::layer_down());
        } else if c == '{' {
            road.connect(Direction::left() + Direction::layer_up());
        } else if c == '[' {
            road.connect(Direction::left() + Direction::layer_down());
        } else {
            return None;
        }
        proof {
            let e = Seq::<Direction>::empty();
            assert(!e.contains(Direction::right()));
            assert(!e.contains(Direction::left()));
            assert(!e.contains(Direction::up()));
            assert(!e.contains(Direction::down()));
            assert(!seq![Direction::left()].contains(Direction::down()));
            assert(seq![Direction::left()][0] != Direction::down());
            assert(seq![Direction::left()][0] != Direction::up());
            assert(seq![Direction::right()][0] != Direction::down());
            assert(seq![Direction::right()][0] != Direction::up());
            assert(e.push(Direction::left()) =~= seq![Direction::left()]);
            assert(e.push(Direction::right()) =~= seq![Direction::right()]);
            assert(seq![Direction::left()].push(Direction::down()) =~= seq![Direction::left(), Direction::down()]);
            assert(seq![Direction::left()].push(Direction::up()) =~= seq![Direction::left(), Direction::up()]);
            assert(seq![Direction::right()].push(Direction::down()) =~= seq![Direction::right(), Direction::down()]);
            assert(seq![Direction::right()].push(Direction::up()) =~= seq![Direction::right(), Direction::up()]);
        }
        Some(road)
    }

    /// Whether the road is well formed (see `wf`).
    pub fn check_wf(&self) -> (r: bool)
        ensures
            r == self.wf(),
    {
        let n = self.connections.len();
        let mut i: usize = 0;
        while i < n
            invariant
                0 <= i <= n,
                n == self.connections@.len(),
                forall|a: int, b: int| 0 <= a < i && 0 <= b < n && a != b ==> self.connections@[a] != self.connections@[b],
                forall|a: int| 0 <= a < i ==> self.connections@[a] != Direction::none(),
            decreases n - i,
        {
            if self.connections[i] == Direction::none() {
                return false;
            }
            let mut j: usize = 0;
            while j < n
                invariant
                    0 <= i < n,
                    0 <= j <= n,
                    n == self.connections@.len(),
                    forall|b: int| 0 <= b < j && b != i ==> self.connections@[i as int] != self.connections@[b],
                decreases n - j,
            {
                if j != i && self.connections[j] == self.connections[i] {
                    return false;
                }
                j = j + 1;
            }
            i = i + 1;
        }
        proof {
            assert(self.connections().no_duplicates());
            if self.connections().contains(Direction::none()) {
                let k = choose|k: int| 0 <= k < n && self.connections@[k] == Direction::none();
            }
        }
        true
    }

    pub fn is_connected(&self, dir: Direction) -> (r: bool)
        ensures
            r == self.connections().contains(dir),
    {
        let mut i: usize = 0;
        while i < self.connections.len()
            invariant
                0 <= i <= self.connections.len(),
                forall|j: int| 0 <= j < i ==> self.connections@[j] != dir,
            decreases self.connections.len() - i,
        {
            if self.connections[i] == dir {
                return true;
            }
            i = i + 1;
        }
        false
    }

    pub fn connect(&mut self, dir: Direction)
        requires
            old(self).wf(),
        ensures
            final(self).wf(),
            final(self).connections() == connected(old(self).connections(), dir),
            final(self).should_yield == old(self).should_yield,
            final(self).station == old(self).station,
            final(self).reserved == old(self).reserved,
    {
        if dir != Direction::none() && !self.is_connected(dir) {
            self.connections.push(dir);
            proof {
                let s = old(self).connections();
                assert forall|i: int, j: int|
                    0 <= i < j < self.connections@.len() implies self.connections@[i]
                    != self.connections@[j] by {
                    if j == s.len() {
                        assert(s.contains(s[i]));
                    }
                }
                assert(!self.connections@.contains(Direction::none())) by {
                    if self.connections@.contains(Direction::none()) {
                        let k = choose|k: int| 0 <= k < self.connections@.len() && self.connections@[k] == Direction::none();
                        if k < s.len() {
                            assert(s.contains(s[k]));
                        }
                    }
                }
            }
        }
    }

    pub fn disconnect(&mut self, dir: Direction)
        requires
            old(self).wf(),
        ensures
            final(self).wf(),
            final(self).connections() == disconnected(old(self).connections(), dir),
            !final(self).connections().contains(dir),
            final(self).should_yield == old(self).should_yield,
            final(self).station == old(self).station,
            final(self).reserved == old(self).reserved,
    {
        let ghost s = self.connections@;
        let mut i: usize = 0;
        while i < self.connections.len()
            invariant
                0 <= i <= self.connections.len(),
                self.connections@ == s,
                s == old(self).connections(),
                old(self).wf(),
                self.should_yield == old(self).should_yield,
                self.station == old(self).station,
                self.reserved == old(self).reserved,
                forall|j: int| 0 <= j < i ==> s[j] != dir,
            decreases self.connections.len() - i,
        {
            if self.connections[i] == dir {
                proof {
                    assert(s.contains(dir));
                    s.index_of_first_ensures(dir);
                    assert(s.index_of(dir) == i) by {
                        let k = s.index_of(dir);
                        assert(s[k] == dir);
                    }
                }
                self.connections.swap_remove(i);
                proof {
                    let t = self.connections@;
                    assert(t =~= swap_removed(s, i as int));
                    assert forall|a: int, b: int| 0 <= a < b < t.len() implies t[a] != t[b] by {
                        let a2 = if a == i { s.len() - 1 } else { a };
                        let b2 = if b == i { s.len() - 1 } else { b };
                        assert(t[a] == s[a2]);
                        assert(t[b] == s[b2]);
                        assert(a2 != b2);
                    }
                    assert(!t.contains(dir)) by {
                        if t.contains(dir) {
                            let k = choose|k: int| 0 <= k < t.len() && t[k] == dir;
                            if k == i && i < s.len() - 1 {
                                assert(s[s.len() - 1] == dir);
                            } else {
                                assert(s[k] == dir);
                            }
                        }
                    }
                    assert(!t.contains(Direction::none())) by {
                        if t.contains(Direction::none()) {
                            let k = choose|k: int| 0 <= k < t.len() && t[k] == Direction::none();
                            if k == i && i < s.len() - 1 {
                                assert(s.contains(s[s.len() - 1]));
                            } else {
                                assert(s.contains(s[k]));
                            }
                        }
                    }
                }
                return;
            }
            i = i + 1;
        }
    }

    /// The number of connections, as a `u32` (truncating).
    pub fn connection_count(&self) -> (r: u32)
        ensures
            r == self.connections().len() as u32,
    {
        self.connections.len() as u32
    }

    /// The directions to leave by; a road without connections (a dead end) is
    /// left by the first default connection of its tile.
    pub fn iter_connections(&self, pos: &Position) -> (r: Vec<Direction>)
        requires
            self.connections().len() == 0 ==> spec_default_connections(*pos).len() > 0,
        ensures
            r@ == (if self.connections().len() > 0 {
                self.connections()
            } else {
                spec_default_connections(*pos).take(1)
            }),
    {
        if self.connections.len() > 0 {
            let mut r: Vec<Direction> = Vec::new();
            let mut i: usize = 0;
            while i < self.connections.len()
                invariant
                    0 <= i <= self.connections.len(),
                    r@ == self.connections@.take(i as int),
                decreases self.connections.len() - i,
            {
                r.push(self.connections[i]);
                i = i + 1;
                assert(r@ =~= self.connections@.take(i as int));
            }
            assert(self.connections@.take(self.connections@.len() as int) =~= self.connections@);
            r
        } else {
            let d = pos.default_connections();
            let r = vec![d[0]];
            assert(r@ =~= spec_default_connections(*pos).take(1));
            r
        }
    }
}

/// Law: connecting a direction twice is connecting it once, and connecting a
/// new direction then disconnecting it gives the connections back.
pub proof fn lemma_connect_disconnect(s: Seq<Direction>, dir: Direction)
    ensures
        connected(connected(s, dir), dir) == connected(s, dir),
        dir != Direction::none() && !s.contains(dir) ==> disconnected(connected(s, dir), dir) == s,
        !connected(s, dir).contains(dir) ==> dir == Direction::none(),
{
    if dir != Direction::none() && !s.contains(dir) {
        let s2 = s.push(dir);
        assert(s2[s.len() as int] == dir);
        assert(s2.contains(dir));
        assert forall|j: int| 0 <= j < s.len() implies s2[j] != dir by {
            assert(s.contains(s[j]));
        }
        assert(s2.index_of(dir) == s.len()) by {
            s2.index_of_first_ensures(dir);
            let k = s2.index_of(dir);
            assert(s2[k] == dir);
        }
        assert(swap_removed(s2, s.len() as int) =~= s);
    }
}

/// Law: on a well-formed road (kept so by `new`, `new_connected`,
/// `new_from_char`, `connect` and `disconnect`) the connection count is the
/// number of distinct directions the road is connected to, and `NONE` is
/// never one of them.
pub proof fn lemma_connection_count_distinct(r: Road)
    requires
        r.wf(),
    ensures
        r.connections().to_set().len() == r.connections().len(),
        r.connections().to_set().len() as u32 == r.connections().len() as u32,
        forall|d: Direction| #[trigger] r.connections().to_set().contains(d) <==> r.connections().contains(d),
        !r.connections().to_set().contains(Direction::none()),
{
    r.connections().unique_seq_to_set();
}

} // verus!
