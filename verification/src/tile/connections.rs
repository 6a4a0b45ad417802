use vstd::prelude::*;

use crate::map::without_first;
use crate::map::Direction;

verus! {

/// The directions a tile connects to, each at most once, in the order added.
#[derive(Clone, PartialEq, Eq, Debug)]
pub struct Connections {
    connections: Vec<Direction>,
}

/// `s` with `dir` appended unless it is already there.
pub open spec fn with_added(s: Seq<Direction>, dir: Direction) -> Seq<Direction> {
    if s.contains(dir) {
        s
    } else {
        s.push(dir)
    }
}

impl View for Connections {
    type V = Seq<Direction>;

    closed spec fn view(&self) -> Seq<Direction> {
        self.connections@
    }
}

/// Whether `v` lists `dir`.
fn vec_contains(v: &Vec<Direction>, dir: Direction) -> (r: bool)
    ensures
        r == v@.contains(dir),
{
    let mut i: usize = 0;
    while i < v.len()
        invariant
            0 <= i <= v@.len(),
            forall|j: int| 0 <= j < i ==> v@[j] != dir,
        decreases v@.len() - i,
    {
        if v[i] == dir {
            return true;
        }
        i = i + 1;
    }
    false
}

/// Swap-removes the first `dir` of `v`, if there is one.
pub fn vec_remove_first(v: &mut Vec<Direction>, dir: Direction)
    ensures
        final(v)@ == without_first(old(v)@, dir),
{
    let ghost s = v@;
    let mut i: usize = 0;
    while i < v.len()
        invariant
            0 <= i <= v@.len(),
            v@ == s,
            s == old(v)@,
            forall|j: int| 0 <= j < i ==> s[j] != dir,
        decreases v@.len() - i,
    {
        if v[i] == dir {
            proof {
                s.index_of_first_ensures(dir);
                assert(s.contains(dir));
                assert(s.index_of_first(dir) == Some(i as int));
            }
            v.swap_remove(i);
            assert(v@ =~= without_first(s, dir));
            return;
        }
        i = i + 1;
    }
    proof {
        s.index_of_first_ensures(dir);
        assert(!s.contains(dir));
    }
}

impl Connections {
    /// No connections.
    pub fn new() -> (r: Connections)
        ensures
            r@ == Seq::<Direction>::empty(),
    {
        Connections { connections: Vec::new() }
    }

    /// Connects `dir`, unless it already is.
    pub fn add(&mut self, dir: Direction)
        ensures
            final(self)@ == with_added(old(self)@, dir),
    {
        if !vec_contains(&self.connections, dir) {
            self.connections.push(dir);
        }
    }

    /// Disconnects `dir`: its first occurrence makes room for the last connection.
    pub fn remove(&mut self, dir: Direction)
        ensures
            final(self)@ == without_first(old(self)@, dir),
    {
        vec_remove_first(&mut self.connections, dir);
    }

    /// The number of connections, as a `u32` (truncating).
    pub fn count(&self) -> (r: u32)
        ensures
            r == self@.len() as u32,
    {
        self.connections.len() as u32
    }

    /// The connections, in order.
    pub fn iter(&self) -> (r: Vec<Direction>)
        ensures
            r@ == self@,
    {
        self.connections.clone()
    }

    /// Whether `dir` is connected.
    pub fn has(&self, dir: Direction) -> (r: bool)
        ensures
            r == self@.contains(dir),
    {
        vec_contains(&self.connections, dir)
    }
}

} // verus!
