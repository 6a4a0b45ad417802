use vstd::prelude::*;

use crate::hash_map_id::Id;
use crate::map::position::Position;

verus! {

/// Why a tile could not be reserved.
#[derive(Clone, Copy, PartialEq, Eq, Structural, Debug)]
pub enum ReservationError {
    TileInvalid,
    TileReserved,
}

/// A moment of the simulation, counted in updates.
pub type Tick = u32;

/// The span of ticks during which a vehicle holds a tile.
#[derive(Clone, Copy, Debug, PartialEq, Eq, Structural)]
pub struct Reservation {
    pub start: Tick,
    pub end: Tick,
    pub pos: Position,
}

impl Reservation {
    pub fn new(pos: Position, start: Tick, end: Tick) -> (r: Self)
        ensures
            r == (Reservation { start, end, pos }),
    {
        Self { start, end, pos }
    }
}

/// One holder of a tile over an inclusive span of ticks.
#[derive(Debug, Clone, Copy, PartialEq, Eq, Structural)]
pub struct Reserved {
    pub id: Id,
    pub start: Tick,
    pub end: Tick,
}

/// The span `[r.start, r.end]` and the span `[start, end]` meet (both inclusive):
/// one of the ends of the second lies in the first, or the second covers the first.
pub open spec fn overlaps(r: Reserved, start: Tick, end: Tick) -> bool {
    ||| (r.start <= start && r.end >= start)
    ||| (r.start <= end && r.end >= end)
    ||| (start < r.start && end > r.end)
}

/// A holder can be dropped: its span ended before `tick`, or it was released (id 0).
pub open spec fn expired(r: Reserved, tick: Tick) -> bool {
    r.end < tick || r.id == 0
}

impl Reserved {
    pub fn new(id: Id, start: Tick, end: Tick) -> (r: Self)
        ensures
            r == (Reserved { id, start, end }),
    {
        Self { id, start, end }
    }

    pub fn get_reserved_id(&self) -> (r: Id)
        ensures
            r == self.id,
    {
        self.id
    }

    pub fn is_reserved(&self, start: Tick, end: Tick) -> (r: bool)
        ensures
            r == overlaps(*self, start, end),
    {
        (self.start <= start && self.end >= start) || (self.start <= end && self.end >= end) || (
        start < self.start && end > self.end)
    }

    pub fn is_expired(&self, tick: Tick) -> (r: bool)
        ensures
            r == expired(*self, tick),
    {
        self.end < tick || self.id == 0
    }
}

/// Index of the first holder in `s` whose span meets `[start, end]`; `s.len()` when none does.
pub open spec fn first_overlap(s: Seq<Reserved>, start: Tick, end: Tick) -> int
    decreases s.len(),
{
    if s.len() == 0 {
        0
    } else if overlaps(s[0], start, end) {
        0
    } else {
        1 + first_overlap(s.drop_first(), start, end)
    }
}

/// Index of the last holder among the first `n` of `s` that has expired at `tick`.
pub open spec fn last_expired(s: Seq<Reserved>, tick: Tick, n: int) -> Option<int>
    decreases n,
{
    if n <= 0 {
        None
    } else if expired(s[n - 1], tick) {
        Some(n - 1)
    } else {
        last_expired(s, tick, n - 1)
    }
}

/// The id that holds some tick of `[start, end]` first in the list, if any.
pub open spec fn holder_of(s: Seq<Reserved>, start: Tick, end: Tick) -> Option<Id> {
    let k = first_overlap(s, start, end);
    if k < s.len() {
        Some(s[k].id)
    } else {
        None
    }
}

/// The list after `id` asks for `[start, end]` at tick `cur`, when the request is granted:
/// the first meeting holder (which is `id` itself) is replaced; failing that, the
/// last expired holder; failing that, the new holder is appended.
pub open spec fn granted_list(s: Seq<Reserved>, id: Id, cur: Tick, start: Tick, end: Tick) -> Seq<
    Reserved,
> {
    let k = first_overlap(s, start, end);
    let new = Reserved { id, start, end };
    if k < s.len() {
        s.update(k, new)
    } else {
        match last_expired(s, cur, s.len() as int) {
            Some(j) => s.update(j, new),
            None => s.push(new),
        }
    }
}

/// A request of `id` for `[start, end]` is refused exactly when the first holder
/// that meets the span belongs to someone else.
pub open spec fn refused(s: Seq<Reserved>, id: Id, start: Tick, end: Tick) -> bool {
    let k = first_overlap(s, start, end);
    k < s.len() && s[k].id != id
}

/// `s` with every holder `id` released (zeroed out so the slot can be reused).
pub open spec fn released(s: Seq<Reserved>, id: Id) -> Seq<Reserved> {
    Seq::new(
        s.len(),
        |i: int|
            if s[i].id == id {
                Reserved { id: 0, start: 0, end: 0 }
            } else {
                s[i]
            },
    )
}

pub proof fn lemma_first_overlap_bounds(s: Seq<Reserved>, start: Tick, end: Tick)
    ensures
        0 <= first_overlap(s, start, end) <= s.len(),
        forall|i: int| 0 <= i < first_overlap(s, start, end) ==> !overlaps(#[trigger] s[i], start, end),
        first_overlap(s, start, end) < s.len() ==> overlaps(s[first_overlap(s, start, end)], start, end),
    decreases s.len(),
{
    if s.len() > 0 && !overlaps(s[0], start, end) {
        lemma_first_overlap_bounds(s.drop_first(), start, end);
        assert forall|i: int| 0 <= i < first_overlap(s, start, end) implies !overlaps(
            #[trigger] s[i],
            start,
            end,
        ) by {
            if i > 0 {
                assert(s[i] == s.drop_first()[i - 1]);
            }
        }
    }
}

/// The overlap index is determined by the first element that overlaps.
pub proof fn lemma_first_overlap_char(s: Seq<Reserved>, start: Tick, end: Tick, k: int)
    requires
        0 <= k <= s.len(),
        forall|i: int| 0 <= i < k ==> !overlaps(#[trigger] s[i], start, end),
        k < s.len() ==> overlaps(s[k], start, end),
    ensures
        first_overlap(s, start, end) == k,
    decreases s.len(),
{
    if s.len() > 0 && k > 0 {
        assert(!overlaps(s[0], start, end));
        assert forall|i: int| 0 <= i < k - 1 implies !overlaps(#[trigger] s.drop_first()[i], start, end) by {
            assert(s.drop_first()[i] == s[i + 1]);
        }
        lemma_first_overlap_char(s.drop_first(), start, end, k - 1);
    }
}

pub proof fn lemma_last_expired(s: Seq<Reserved>, tick: Tick, n: int)
    requires
        0 <= n <= s.len(),
    ensures
        last_expired(s, tick, n) matches Some(j) ==> 0 <= j < n && expired(s[j], tick) && forall|
            i: int,
        | j < i < n ==> !expired(#[trigger] s[i], tick),
        last_expired(s, tick, n) is None ==> forall|i: int| 0 <= i < n ==> !expired(#[trigger] s[i], tick),
    decreases n,
{
    if n > 0 && !expired(s[n - 1], tick) {
        lemma_last_expired(s, tick, n - 1);
    }
}

/// Law: a granted request keeps every other holder whose span has not ended
/// at the current tick: each holder `h` of the list with a real id other than
/// the requester's and `h.end >= cur` is still in the list afterwards, at the
/// same place, so the tile still reads as held by `h.id` over its span.
pub proof fn lemma_granted_keeps_live_holders(s: Seq<Reserved>, id: Id, cur: Tick, start: Tick, end: Tick, j: int)
    requires
        !refused(s, id, start, end),
        0 <= j < s.len(),
        s[j].id != 0,
        s[j].id != id,
        s[j].end >= cur,
    ensures
        j < granted_list(s, id, cur, start, end).len(),
        granted_list(s, id, cur, start, end)[j] == s[j],
{
    lemma_first_overlap_bounds(s, start, end);
    lemma_last_expired(s, cur, s.len() as int);
    let k = first_overlap(s, start, end);
    if k < s.len() {
        assert(s[k].id == id);
    } else {
        if let Some(e) = last_expired(s, cur, s.len() as int) {
            assert(expired(s[e], cur));
            assert(e != j);
        }
    }
}

/// Law: once a request for a non-empty span `[start, end]` is granted, the span
/// reads back as held by the requester (and so as reserved for anybody else).
pub proof fn lemma_granted_reads_back(s: Seq<Reserved>, id: Id, cur: Tick, start: Tick, end: Tick)
    requires
        !refused(s, id, start, end),
        start <= end,
    ensures
        holder_of(granted_list(s, id, cur, start, end), start, end) == Some(id),
{
    lemma_first_overlap_bounds(s, start, end);
    lemma_last_expired(s, cur, s.len() as int);
    let g = granted_list(s, id, cur, start, end);
    let new = Reserved { id, start, end };
    assert(overlaps(new, start, end));
    let k = first_overlap(s, start, end);
    if k < s.len() {
        assert forall|i: int| 0 <= i < k implies !overlaps(#[trigger] g[i], start, end) by {
            assert(g[i] == s[i]);
        }
        lemma_first_overlap_char(g, start, end, k);
    } else {
        match last_expired(s, cur, s.len() as int) {
            Some(j) => {
                assert forall|i: int| 0 <= i < j implies !overlaps(#[trigger] g[i], start, end) by {
                    assert(g[i] == s[i]);
                }
                lemma_first_overlap_char(g, start, end, j);
            },
            None => {
                assert forall|i: int| 0 <= i < s.len() implies !overlaps(#[trigger] g[i], start, end) by {
                    assert(g[i] == s[i]);
                }
                lemma_first_overlap_char(g, start, end, s.len() as int);
            },
        }
    }
}

/// Law: after `id` releases a tile, no slot is held by `id` any more (for a real
/// identifier; 0 marks a free slot), and the other holders are kept as they were.
pub proof fn lemma_released_frees_holder(s: Seq<Reserved>, id: Id)
    requires
        id != 0,
    ensures
        released(s, id).len() == s.len(),
        forall|i: int| 0 <= i < s.len() ==> (#[trigger] released(s, id)[i]).id != id,
        forall|i: int| 0 <= i < s.len() && s[i].id != id ==> released(s, id)[i] == s[i],
{
}

pub open spec fn as_index(o: Option<usize>) -> Option<int> {
    match o {
        Some(i) => Some(i as int),
        None => None,
    }
}

/// The holders of a tile, in the order they were granted (with reuse of freed slots).
#[derive(Debug, Clone, PartialEq, Eq)]
pub struct ReservedList {
    pub list: Vec<Reserved>,
}

impl ReservedList {
    pub closed spec fn view(&self) -> Seq<Reserved> {
        self.list@
    }

    pub fn new() -> (r: Self)
        ensures
            r@ == Seq::<Reserved>::empty(),
    {
        Self { list: Vec::new() }
    }

    /// The number of holder slots, released ones included.
    pub fn len(&self) -> (r: usize)
        ensures
            r == self@.len(),
    {
        self.list.len()
    }

    pub fn get_reserved_id(&self, start: Tick, end: Tick) -> (r: Option<Id>)
        ensures
            r == holder_of(self@, start, end),
    {
        proof {
            lemma_first_overlap_bounds(self@, start, end);
        }
        let mut i: usize = 0;
        while i < self.list.len()
            invariant
                0 <= i <= self.list.len(),
                forall|j: int| 0 <= j < i ==> !overlaps(#[trigger] self.list@[j], start, end),
            decreases self.list.len() - i,
        {
            if self.list[i].is_reserved(start, end) {
                proof {
                    lemma_first_overlap_char(self@, start, end, i as int);
                }
                return Some(self.list[i].get_reserved_id());
            }
            i = i + 1;
        }
        proof {
            lemma_first_overlap_char(self@, start, end, self@.len() as int);
        }
        None
    }

    /// Someone other than `res_id` holds a tick of `[start, end]` (as far as the
    /// first meeting holder tells).
    pub fn is_reserved(&self, res_id: Id, start: Tick, end: Tick) -> (r: bool)
        ensures
            r == (holder_of(self@, start, end) matches Some(id) && id != res_id),
    {
        match self.get_reserved_id(start, end) {
            Some(id) => res_id != id,
            None => false,
        }
    }

    /// Asks for `reservation`'s span on behalf of `id` at tick `cur`.
    pub fn try_reserve(&mut self, id: Id, cur: Tick, reservation: &Reservation) -> (r: Result<
        (),
        ReservationError,
    >)
        ensures
            refused(old(self)@, id, reservation.start, reservation.end) ==> r == Err::<
                (),
                ReservationError,
            >(ReservationError::TileReserved) && final(self)@ == old(self)@,
            !refused(old(self)@, id, reservation.start, reservation.end) ==> r is Ok && final(self)@
                == granted_list(old(self)@, id, cur, reservation.start, reservation.end),
            r is Ok ==> forall|j: int|
                0 <= j < old(self)@.len() && old(self)@[j].id != 0 && old(self)@[j].id != id && old(self)@[j].end
                    >= cur ==> j < final(self)@.len() && #[trigger] final(self)@[j] == old(self)@[j],
    {
        proof {
            assert forall|j: int|
                0 <= j < old(self)@.len() && old(self)@[j].id != 0 && old(self)@[j].id != id && old(self)@[j].end
                    >= cur && !refused(old(self)@, id, reservation.start, reservation.end) implies j < granted_list(
                old(self)@,
                id,
                cur,
                reservation.start,
                reservation.end,
            ).len() && granted_list(old(self)@, id, cur, reservation.start, reservation.end)[j] == old(self)@[j] by {
                lemma_granted_keeps_live_holders(old(self)@, id, cur, reservation.start, reservation.end, j);
            }
        }
        let ghost s = self@;
        let start = reservation.start;
        let end = reservation.end;
        proof {
            lemma_first_overlap_bounds(s, start, end);
            lemma_last_expired(s, cur, s.len() as int);
        }
        let mut to_remove: Option<usize> = None;
        let mut i: usize = 0;
        let mut found = false;
        while i < self.list.len()
            invariant_except_break
                0 <= i <= self.list.len(),
                self@ == s,
                s == old(self)@,
                start == reservation.start,
                end == reservation.end,
                forall|j: int| 0 <= j < i ==> !overlaps(#[trigger] s[j], start, end),
                as_index(to_remove) == last_expired(s, cur, i as int),
                !found,
            ensures
                self@ == s,
                found ==> (i as int) == first_overlap(s, start, end) && i < s.len() && s[i as int].id
                    == id && to_remove == Some(i),
                !found ==> (forall|j: int| 0 <= j < s.len() ==> !overlaps(#[trigger] s[j], start, end))
                    && as_index(to_remove) == last_expired(
                    s,
                    cur,
                    s.len() as int,
                ),
            decreases self.list.len() - i,
        {
            let reserved = self.list[i];
            if reserved.is_expired(cur) {
                to_remove = Some(i);
            }
            if reserved.is_reserved(start, end) {
                proof {
                    lemma_first_overlap_char(s, start, end, i as int);
                }
                if reserved.id == id {
                    to_remove = Some(i);
                    found = true;
                    break;
                }
                assert(refused(s, id, start, end));
                return Err(ReservationError::TileReserved);
            }
            i = i + 1;
            proof {
                assert(last_expired(s, cur, i as int) == (if expired(s[i - 1], cur) {
                    Some(i - 1)
                } else {
                    last_expired(s, cur, i - 1)
                }));
            }
        }
        if !found {
            proof {
                lemma_first_overlap_char(s, start, end, s.len() as int);
            }
        }
        let reserved = Reserved::new(id, start, end);
        match to_remove {
            Some(i) => {
                proof {
                    if !found {
                        lemma_last_expired(s, cur, s.len() as int);
                    }
                }
                self.list.set(i, reserved);
            },
            None => {
                self.list.push(reserved);
            },
        }
        Ok(())
    }

    /// Releases every slot that `id` holds.
    pub fn unreserve(&mut self, id: Id)
        ensures
            final(self)@ == released(old(self)@, id),
    {
        let ghost s = self@;
        let mut i: usize = 0;
        while i < self.list.len()
            invariant
                0 <= i <= self.list.len(),
                self.list@.len() == s.len(),
                forall|j: int| 0 <= j < i ==> #[trigger] self.list@[j] == released(s, id)[j],
                forall|j: int| i <= j < s.len() ==> #[trigger] self.list@[j] == s[j],
            decreases self.list.len() - i,
        {
            if self.list[i].id == id {
                self.list.set(i, Reserved { id: 0, start: 0, end: 0 });
            }
            i = i + 1;
        }
        assert(self@ =~= released(s, id));
    }
}

impl ReservedList {
    /// A copy of this list.
    pub fn duplicate(&self) -> (r: Self)
        ensures
            r@ == self@,
    {
        let mut list: Vec<Reserved> = Vec::new();
        let mut i: usize = 0;
        while i < self.list.len()
            invariant
                0 <= i <= self.list.len(),
                list@ == self.list@.take(i as int),
            decreases self.list.len() - i,
        {
            list.push(self.list[i]);
            i = i + 1;
            assert(list@ =~= self.list@.take(i as int));
        }
        assert(self.list@.take(self.list@.len() as int) =~= self.list@);
        Self { list }
    }

    /// A list holding exactly the given holders, in order.
    pub fn from_slice(value: &[Reserved]) -> (r: Self)
        ensures
            r@ == value@,
    {
        let mut list: Vec<Reserved> = Vec::new();
        let mut i: usize = 0;
        while i < value.len()
            invariant
                0 <= i <= value.len(),
                list@ == value@.take(i as int),
            decreases value.len() - i,
        {
            list.push(value[i]);
            i = i + 1;
            assert(list@ =~= value@.take(i as int));
        }
        assert(value@.take(value@.len() as int) =~= value@);
        Self { list }
    }
}

} // verus!
