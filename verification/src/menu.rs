use vstd::prelude::*;

verus! {

/// The entries of the pause menu.
#[derive(Clone, Copy, PartialEq, Eq, Structural, Debug)]
pub enum MenuSelect {
    Continue,
    NewGame,
    SaveGame,
    LoadGame,
}

} // verus!
