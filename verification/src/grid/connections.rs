use vstd::prelude::*;

use super::direction::{spec_bit, Direction};

verus! {

/// The layers of a tile's connections, each held in four flags.
#[derive(Clone, Copy, Debug, PartialEq, Eq, Structural)]
pub enum ConnectionLayer {
    Road,
    Driveway,
}

/// Every direction of one layer.
pub const CONNECTIONS_ALL: u32 = 0b1111;

/// Flags per layer.
pub const LAYER_SIZE: u32 = 4;

/// The flags of the lowest layer.
pub const LAYER_MASK: u32 = 0b1111;

/// How far up the flags of `layer` sit.
pub open spec fn layer_shift(layer: ConnectionLayer) -> u32 {
    match layer {
        ConnectionLayer::Road => 0,
        ConnectionLayer::Driveway => 4,
    }
}

fn layer_index(layer: ConnectionLayer) -> (r: u32)
    ensures
        r * LAYER_SIZE == layer_shift(layer),
        r <= 1,
{
    match layer {
        ConnectionLayer::Road => 0,
        ConnectionLayer::Driveway => 1,
    }
}

/// The number of ones in the binary form of `n`.
pub open spec fn ones(n: u32) -> nat
    decreases n,
{
    if n == 0 {
        0
    } else {
        (n % 2) as nat + ones(n / 2)
    }
}

/// Counts the ones in the binary form of `n`.
pub fn count_ones(n: u32) -> (r: u32)
    ensures
        r == ones(n),
{
    let mut m = n;
    let mut count: u32 = 0;
    proof {
        lemma_ones_bound(n);
    }
    while m != 0
        invariant
            count + ones(m) == ones(n),
            ones(n) <= n,
        decreases m,
    {
        count = count + m % 2;
        m = m / 2;
    }
    count
}

/// A number has no more ones than its value.
pub proof fn lemma_ones_bound(n: u32)
    ensures
        ones(n) <= n,
    decreases n,
{
    if n != 0 {
        lemma_ones_bound(n / 2);
    }
}

/// The directions a set of flags yields, layer by layer from the lowest, each
/// layer in the order up, down, right, left.
pub open spec fn spec_dirs(b: u32) -> Seq<Direction>
    decreases b,
{
    if b == 0 {
        Seq::empty()
    } else {
        proof {
            assert(b != 0 ==> b >> 4u32 < b) by (bit_vector);
        }
        nibble_dirs(b & 15) + spec_dirs(b >> 4u32)
    }
}

/// The directions one layer's flags `n` yield, in the order up, down, right, left.
pub open spec fn nibble_dirs(n: u32) -> Seq<Direction> {
    (if n & 1 != 0 { seq![Direction::Up] } else { Seq::empty() }) + (if n & 2 != 0 {
        seq![Direction::Down]
    } else {
        Seq::empty()
    }) + (if n & 8 != 0 { seq![Direction::Right] } else { Seq::empty() }) + (if n & 4 != 0 {
        seq![Direction::Left]
    } else {
        Seq::empty()
    })
}

/// A tile's connections on its layers, four flags per layer.
#[derive(Clone, Copy, PartialEq, Eq, Debug)]
pub struct Connections {
    connection_bitfield: u32,
}

impl View for Connections {
    type V = u32;

    closed spec fn view(&self) -> u32 {
        self.connection_bitfield
    }
}

impl Connections {
    /// Connections with `dir` on `layer` only.
    pub fn new(layer: ConnectionLayer, dir: Direction) -> (r: Connections)
        ensures
            r@ == spec_bit(dir) << layer_shift(layer),
    {
        Connections { connection_bitfield: dir.bit() << (layer_index(layer) * LAYER_SIZE) }
    }

    /// Adds `dir` on `layer`.
    pub fn add(&mut self, layer: ConnectionLayer, dir: Direction)
        ensures
            final(self)@ == old(self)@ | (spec_bit(dir) << layer_shift(layer)),
    {
        self.connection_bitfield = self.connection_bitfield | (dir.bit() << (layer_index(layer) * LAYER_SIZE));
    }

    /// Drops `dir` from the lowest layer.
    pub fn remove(&mut self, dir: Direction)
        ensures
            final(self)@ == old(self)@ & !spec_bit(dir),
    {
        self.connection_bitfield = self.connection_bitfield & !dir.bit();
    }

    /// How many directions the lowest layer has.
    pub fn count(&self) -> (r: u32)
        ensures
            r == ones(self@ & LAYER_MASK),
    {
        count_ones(self.connection_bitfield & LAYER_MASK)
    }

    /// The directions of `layer`.
    pub fn iter_layer(&self, layer: ConnectionLayer) -> (r: ConnectionsIterator)
        ensures
            r@ == (self@ >> layer_shift(layer)) & LAYER_MASK,
    {
        ConnectionsIterator {
            connection_bitfield: (self.connection_bitfield >> (layer_index(layer) * LAYER_SIZE)) & LAYER_MASK,
        }
    }

    /// The directions of every layer, from the lowest.
    pub fn iter(&self) -> (r: ConnectionsIterator)
        ensures
            r@ == self@,
    {
        ConnectionsIterator { connection_bitfield: self.connection_bitfield }
    }

    /// The directions the lowest layer does not have (the layer's mask is
    /// shifted by `LAYER_SIZE & layer`, which is no shift for either layer).
    pub fn iter_inverse(&self, layer: ConnectionLayer) -> (r: ConnectionsIterator)
        ensures
            r@ == !self@ & LAYER_MASK,
    {
        let index = layer_index(layer);
        let shift = LAYER_SIZE & index;
        assert(shift == 0) by (bit_vector)
            requires
                index <= 1,
                shift == 4u32 & index,
        ;
        assert(LAYER_MASK << shift == LAYER_MASK) by (bit_vector)
            requires
                shift == 0,
        ;
        ConnectionsIterator { connection_bitfield: !self.connection_bitfield & (LAYER_MASK << shift) }
    }

    /// Whether the lowest layer has `dir`.
    pub fn has(&self, dir: Direction) -> (r: bool)
        ensures
            r == (self@ & spec_bit(dir) != 0),
    {
        (self.connection_bitfield & dir.bit()) != 0
    }
}

/// Hands out the directions of a set of connection flags (see `spec_dirs`).
pub struct ConnectionsIterator {
    connection_bitfield: u32,
}

impl View for ConnectionsIterator {
    type V = u32;

    closed spec fn view(&self) -> u32 {
        self.connection_bitfield
    }
}

/// Taking the next direction off flags `b` leaves the rest of the sequence.
proof fn lemma_next_step(b: u32, bit: u32)
    requires
        bit == 1 || bit == 2 || bit == 4 || bit == 8,
        b & bit != 0,
        bit == 2 ==> b & 1 == 0,
        bit == 8 ==> b & 1 == 0 && b & 2 == 0,
        bit == 4 ==> b & 1 == 0 && b & 2 == 0 && b & 8 == 0,
    ensures
        spec_dirs(b) == nibble_dirs(b & 15).take(1) + spec_dirs((b - bit) as u32),
        nibble_dirs(b & 15).take(1) == seq![
            if bit == 1 {
                Direction::Up
            } else if bit == 2 {
                Direction::Down
            } else if bit == 8 {
                Direction::Right
            } else {
                Direction::Left
            },
        ],
{
    assert(b >= bit) by (bit_vector)
        requires
            (bit == 1 || bit == 2 || bit == 4 || bit == 8),
            b & bit != 0,
    ;
    let c = (b - bit) as u32;
    assert(c >> 4u32 == b >> 4u32 && c & 15 == (b & 15) - bit && c & bit == 0 && (bit == 1 || bit == 2
        || bit == 4 || bit == 8) && b & bit != 0 && ((b & 15) & bit) != 0 && ((c & 15) & bit) == 0 && (bit
        != 1 ==> ((c & 15) & 1) == ((b & 15) & 1)) && (bit != 2 ==> ((c & 15) & 2) == ((b & 15) & 2)) && (
    bit != 4 ==> ((c & 15) & 4) == ((b & 15) & 4)) && (bit != 8 ==> ((c & 15) & 8) == ((b & 15) & 8)))
        by (bit_vector)
        requires
            (bit == 1 || bit == 2 || bit == 4 || bit == 8),
            b & bit != 0,
            c == b - bit,
    ;
    assert(b != 0) by (bit_vector)
        requires
            b & bit != 0,
    ;
    assert(b & 15 != 0) by (bit_vector)
        requires
            (bit == 1 || bit == 2 || bit == 4 || bit == 8),
            b & bit != 0,
    ;
    let n = b & 15;
    let m = c & 15;
    assert(n & 1 == (b & 1) && n & 2 == (b & 2) && n & 4 == (b & 4) && n & 8 == (b & 8)) by (bit_vector)
        requires
            n == b & 15,
    ;
    assert(spec_dirs(c) == nibble_dirs(m) + spec_dirs(c >> 4u32)) by {
        if c == 0 {
            assert(c >> 4u32 == 0) by (bit_vector)
                requires
                    c == 0,
            ;
            assert(m & 1 == 0 && m & 2 == 0 && m & 4 == 0 && m & 8 == 0) by (bit_vector)
                requires
                    m == c & 15,
                    c == 0,
            ;
            assert(nibble_dirs(m) =~= Seq::<Direction>::empty());
        }
    }
    assert(nibble_dirs(n) =~= nibble_dirs(n).take(1) + nibble_dirs(m));
    assert(spec_dirs(b) =~= nibble_dirs(b & 15).take(1) + spec_dirs(c));
}

impl ConnectionsIterator {
    /// Every direction of one layer.
    pub fn all_directions() -> (r: Self)
        ensures
            r@ == CONNECTIONS_ALL,
    {
        ConnectionsIterator { connection_bitfield: CONNECTIONS_ALL }
    }

    /// No direction at all.
    pub fn no_directions() -> (r: Self)
        ensures
            r@ == 0,
    {
        ConnectionsIterator { connection_bitfield: 0 }
    }

    /// The next direction, if any is left: the first of `spec_dirs`.
    pub fn next(&mut self) -> (r: Option<Direction>)
        ensures
            spec_dirs(old(self)@) == (match r {
                Some(d) => seq![d],
                None => Seq::empty(),
            }) + spec_dirs(final(self)@),
            r is None ==> spec_dirs(old(self)@) == Seq::<Direction>::empty(),
            r is Some ==> final(self)@ < old(self)@,
    {
        loop
            invariant
                spec_dirs(old(self)@) == spec_dirs(self@),
                self@ <= old(self)@,
            decreases self@,
        {
            let b = self.connection_bitfield;
            if b & 1 != 0 {
                proof {
                    lemma_next_step(b, 1);
                }
                self.connection_bitfield = b - 1;
                return Some(Direction::Up);
            } else if b & 2 != 0 {
                proof {
                    lemma_next_step(b, 2);
                    assert(b >= 2) by (bit_vector)
                        requires
                            b & 2 != 0,
                    ;
                }
                self.connection_bitfield = b - 2;
                return Some(Direction::Down);
            } else if b & 8 != 0 {
                proof {
                    lemma_next_step(b, 8);
                    assert(b >= 8) by (bit_vector)
                        requires
                            b & 8 != 0,
                    ;
                }
                self.connection_bitfield = b - 8;
                return Some(Direction::Right);
            } else if b & 4 != 0 {
                proof {
                    lemma_next_step(b, 4);
                    assert(b >= 4) by (bit_vector)
                        requires
                            b & 4 != 0,
                    ;
                }
                self.connection_bitfield = b - 4;
                return Some(Direction::Left);
            } else if b != 0 {
                proof {
                    let n = b & 15;
                    assert(n == 0 && b >> 4u32 < b) by (bit_vector)
                        requires
                            n == b & 15,
                            b & 1 == 0,
                            b & 2 == 0,
                            b & 4 == 0,
                            b & 8 == 0,
                            b != 0,
                    ;
                    assert(n & 1 == 0 && n & 2 == 0 && n & 4 == 0 && n & 8 == 0) by (bit_vector)
                        requires
                            n == 0,
                    ;
                    assert(nibble_dirs(n) =~= Seq::<Direction>::empty());
                    assert(spec_dirs(b) =~= spec_dirs(b >> 4u32));
                }
                self.connection_bitfield = b >> LAYER_SIZE;
            } else {
                return None;
            }
        }
    }

    /// All the directions still to come, in order.
    pub fn collect_vec(self) -> (r: Vec<Direction>)
        ensures
            r@ == spec_dirs(self@),
    {
        let mut it = self;
        let mut out: Vec<Direction> = Vec::new();
        loop
            invariant
                out@ + spec_dirs(it@) == spec_dirs(self@),
            decreases it@,
        {
            let ghost prev = out@;
            match it.next() {
                Some(d) => {
                    out.push(d);
                    proof {
                        assert(out@ + spec_dirs(it@) =~= prev + (seq![d] + spec_dirs(it@)));
                    }
                },
                None => {
                    assert(out@ + spec_dirs(it@) =~= out@);
                    return out;
                },
            }
        }
    }
}

/// Law: adding a direction on the road layer and removing it again gives
/// the connections back, when the direction was not there before.
pub proof fn lemma_add_then_remove(b: u32, dir: Direction)
    requires
        b & spec_bit(dir) == 0,
    ensures
        (b | (spec_bit(dir) << layer_shift(ConnectionLayer::Road))) & !spec_bit(dir) == b,
{
    let f = spec_bit(dir);
    assert(f << 0u32 == f) by (bit_vector);
    assert((b | f) & !f == b) by (bit_vector)
        requires
            b & f == 0,
    ;
}

} // verus!
