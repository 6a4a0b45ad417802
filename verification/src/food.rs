use vstd::prelude::*;

use crate::grid::GridPosition;

verus! {

/// A piece of food on the small fixed grid.
#[derive(Clone, Copy, PartialEq, Eq, Structural, Debug)]
pub struct Food {
    pub pos: GridPosition,
}

impl Food {
    pub fn new(pos: GridPosition) -> (r: Self)
        ensures
            r.pos == pos,
    {
        Food { pos }
    }
}

} // verus!
