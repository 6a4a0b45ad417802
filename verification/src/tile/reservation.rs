use vstd::prelude::*;
use std::rc::{Rc, Weak};

use crate::hash_map_id::Id;
use crate::map::Position;

verus! {

/// Who holds a tile: a weak handle on the holder's id, which lapses as soon
/// as the holder's `Reservation` (the strong handle) is gone.
#[verifier::external_body]
#[derive(Debug)]
pub struct Reserved {
    weak_id: Weak<Id>,
}

/// Two handles are equal when as many strong handles keep each holder alive
/// (what `strong_count` answers, which depends on those handles and not on
/// these values, so `==` on handles follows no spec).
impl PartialEq for Reserved {
    fn eq(&self, other: &Self) -> (r: bool) {
        self.strong_count() == other.strong_count()
    }
}

impl vstd::std_specs::cmp::PartialEqSpecImpl for Reserved {
    open spec fn obeys_eq_spec() -> bool {
        false
    }

    open spec fn eq_spec(&self, other: &Self) -> bool {
        self == other
    }
}

impl Eq for Reserved {
}

impl Clone for Reserved {
    /// Another weak handle on the same holder (`std::rc::Weak::clone`);
    /// nothing is claimed of it.
    #[verifier::external_body]
    fn clone(&self) -> Self {
        Reserved { weak_id: self.weak_id.clone() }
    }
}

/// A vehicle's hold on a tile: the strong handle on its id, and the tile.
pub struct Reservation {
    pub _strong_id: Rc<Id>,
    pub pos: Position,
}

impl Reserved {
    /// Nobody holds the tile: the handle is `std::rc::Weak::new()`, which
    /// points at no id (nothing is claimed of it here).
    #[verifier::external_body]
    pub fn new() -> Self {
        Reserved { weak_id: Weak::new() }
    }

    /// The holder's id while its `Reservation` lives, through
    /// `std::rc::Weak::upgrade`; what it returns depends on whether that
    /// reservation is still alive, so nothing is claimed of it.
    #[verifier::external_body]
    pub fn get_reserved_id(&self) -> Option<Id> {
        Weak::upgrade(&self.weak_id).map(|rc| *rc)
    }

    /// How many strong handles on the holder's id are alive
    /// (`std::rc::Weak::strong_count`); this depends on those handles, not on
    /// this value, so nothing is claimed.
    #[verifier::external_body]
    fn strong_count(&self) -> usize {
        self.weak_id.strong_count()
    }

    /// Whether a holder's `Reservation` is alive: some strong handle on the id remains.
    pub fn is_reserved(&self) -> (r: bool) {
        self.strong_count() > 0
    }

    /// Points the handle at the id behind `rc` (`std::rc::Rc::downgrade`).
    #[verifier::external_body]
    fn hold(&mut self, rc: &Rc<Id>) {
        self.weak_id = Rc::downgrade(rc);
    }

    /// Lets vehicle `id` hold the tile at `pos` when nobody does: the
    /// reservation carries the id and the tile; `None` while it is held, and
    /// then the handle is left as it was. Whether it is held is what
    /// `is_reserved` answers, which depends on the holder's reservation being
    /// alive, so on which calls it succeeds is left unsaid.
    pub fn try_reserve(&mut self, id: Id, pos: Position) -> (r: Option<Reservation>)
        ensures
            r matches Some(res) ==> *res._strong_id == id && res.pos == pos,
            r is None ==> *final(self) == *old(self),
    {
        if !self.is_reserved() {
            let rc = Rc::new(id);
            self.hold(&rc);
            Some(Reservation { _strong_id: rc, pos })
        } else {
            None
        }
    }
}

impl Reservation {
    /// The hold a house keeps on its own tile, under id 0.
    pub fn new_for_house(pos: Position) -> (r: Self)
        ensures
            *r._strong_id == 0,
            r.pos == pos,
    {
        Reservation { _strong_id: Rc::new(0), pos }
    }
}

} // verus!
