use vstd::prelude::*;

verus! {

/// A message waiting for the player to confirm or cancel it.
pub struct Popup {
    pub message: String,
}

/// The player's answer to a popup.
#[derive(Clone, Copy, PartialEq, Eq, Structural, Debug)]
pub enum PopupResult {
    Okay,
    Cancel,
}

impl Popup {
    pub fn new(message: String) -> (r: Self)
        ensures
            r.message == message,
    {
        Self { message }
    }
}

} // verus!
