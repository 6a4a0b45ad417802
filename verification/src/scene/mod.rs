use vstd::prelude::*;

pub mod level_select;

verus! {

/// How a game starts: a level by its number, a new free game, or the saved game.
#[derive(Clone, Copy, PartialEq, Eq, Structural, Debug)]
pub enum GameOptions {
    Level(usize),
    New,
    Continue,
}

} // verus!
