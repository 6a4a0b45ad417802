use vstd::prelude::*;

verus! {

/// The colour a spawner, and the vehicles it sends, is drawn in.
#[derive(Clone, Copy, PartialEq, Eq, Structural, Debug)]
pub enum SpawnerColors {
    Uncolored,
    Blue,
    Red,
    Green,
    Yellow,
}

pub open spec fn spec_color_of_station(station: u64) -> SpawnerColors {
    if station == 1 {
        SpawnerColors::Blue
    } else if station == 2 {
        SpawnerColors::Red
    } else if station == 3 {
        SpawnerColors::Yellow
    } else if station == 4 {
        SpawnerColors::Green
    } else {
        SpawnerColors::Uncolored
    }
}

impl SpawnerColors {
    /// The colour of the station numbered `station` in a level string.
    pub fn from_number(station: u64) -> (r: SpawnerColors)
        ensures
            r == spec_color_of_station(station),
    {
        match station {
            1 => SpawnerColors::Blue,
            2 => SpawnerColors::Red,
            3 => SpawnerColors::Yellow,
            4 => SpawnerColors::Green,
            _ => SpawnerColors::Uncolored,
        }
    }
}

} // verus!
