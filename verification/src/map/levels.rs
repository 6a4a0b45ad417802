use vstd::prelude::*;

use crate::text::{split_ascii_whitespace, str_chars, words};
use super::grid::{no_row_shorter, parsed_from, rows_within};
use super::{GameMap, MapMetadata, Unlocked, DEFAULT_CITY_ID};

verus! {

broadcast use vstd::string::to_string_from_display_ensures_for_str;

/// A level: its name, the hint shown with it, the build tools it offers,
/// and its map string.
#[derive(Clone, Copy)]
pub struct Level {
    pub name: &'static str,
    pub hint: &'static str,
    pub unlocked: Unlocked,
    pub grid: &'static str,
}

/// How many levels there are.
pub const LEVEL_COUNT: usize = 4;

/// The level with number `n` (the last one for larger numbers).
pub open spec fn spec_level(n: usize) -> Level {
    if n == 0 {
        Level {
            name: "Connect Road",
            hint: "Select Build Road, then click and drag to connect the colors",
            unlocked: Unlocked::Roads,
            grid: "
            __________________
            __________________
            __________________
            __________________
            11______________22
            11______________22
            __________________
            __________________
            __________________
            __________________
            ",
        }
    } else if n == 1 {
        Level {
            name: "Intersection",
            hint: "Intersections are created when roads cross",
            unlocked: Unlocked::Roads,
            grid: "
            ________22________
            ________22________
            __________________
            __________________
            __________________
            __________________
            __________________
            __________________
            11______________33
            11______________33
            __________________
            __________________
            __________________
            __________________
            ",
        }
    } else if n == 2 {
        Level {
            name: "Bridges",
            hint: "Bridges can be build over Rivers or roads",
            unlocked: Unlocked::Bridges,
            grid: "
            ________ww________
            ________ww________
            ________ww________
            ________ww________
            11______ww______22
            11______ww______22
            ________ww________
            ________ww________
            ________ww________
            ________ww________
            ",
        }
    } else {
        Level {
            name: "Highway",
            hint: "You can create one-way roads",
            unlocked: Unlocked::OneWayRoads,
            grid: "
            __________________
            __________________
            11______________22
            11______________22
            11______________22
            11______________22
            __________________
            __________________
            ",
        }
    }
}

/// The level with number `n`.
pub fn level(n: usize) -> (r: Level)
    requires
        n < LEVEL_COUNT,
    ensures
        r == spec_level(n),
{
    if n == 0 {
        Level {
            name: "Connect Road",
            hint: "Select Build Road, then click and drag to connect the colors",
            unlocked: Unlocked::Roads,
            grid: "
            __________________
            __________________
            __________________
            __________________
            11______________22
            11______________22
            __________________
            __________________
            __________________
            __________________
            ",
        }
    } else if n == 1 {
        Level {
            name: "Intersection",
            hint: "Intersections are created when roads cross",
            unlocked: Unlocked::Roads,
            grid: "
            ________22________
            ________22________
            __________________
            __________________
            __________________
            __________________
            __________________
            __________________
            11______________33
            11______________33
            __________________
            __________________
            __________________
            __________________
            ",
        }
    } else if n == 2 {
        Level {
            name: "Bridges",
            hint: "Bridges can be build over Rivers or roads",
            unlocked: Unlocked::Bridges,
            grid: "
            ________ww________
            ________ww________
            ________ww________
            ________ww________
            11______ww______22
            11______ww______22
            ________ww________
            ________ww________
            ________ww________
            ________ww________
            ",
        }
    } else {
        Level {
            name: "Highway",
            hint: "You can create one-way roads",
            unlocked: Unlocked::OneWayRoads,
            grid: "
            __________________
            __________________
            11______________22
            11______________22
            11______________22
            11______________22
            __________________
            __________________
            ",
        }
    }
}

/// A map string `new_from_string` can read: at least one row, at most 4096
/// rows of equal length, at most 4096 tiles wide.
pub open spec fn map_string_fits(s: Seq<char>) -> bool {
    &&& words(s).len() > 0
    &&& words(s).len() <= 0x1000
    &&& words(s)[0].len() <= 0x1000
    &&& no_row_shorter(words(s))
    &&& rows_within(words(s), 0x1000)
}

/// Whether `s` is a map string `new_from_string` can read (see `map_string_fits`).
pub fn fits_map_string(s: &str) -> (r: bool)
    ensures
        r == map_string_fits(s@),
{
    let chars = str_chars(s);
    let rows = split_ascii_whitespace(&chars);
    if rows.len() == 0 || rows.len() > 0x1000 || rows[0].len() > 0x1000 {
        return false;
    }
    let width = rows[0].len();
    let mut i: usize = 0;
    while i < rows.len()
        invariant
            0 <= i <= rows@.len(),
            rows@.len() == words(s@).len(),
            forall|k: int| 0 <= k < rows@.len() ==> #[trigger] rows@[k]@ == words(s@)[k],
            width == words(s@)[0].len(),
            rows@.len() > 0,
            forall|y: int| 0 <= y < i ==> #[trigger] words(s@)[y].len() >= width && words(s@)[y].len() <= 0x1000,
        decreases rows@.len() - i,
    {
        if rows[i].len() < width || rows[i].len() > 0x1000 {
            assert(rows@[i as int]@ == words(s@)[i as int]);
            return false;
        }
        i = i + 1;
    }
    assert(rows@[0]@ == words(s@)[0]);
    true
}

/// The map of level `n`: its map string read (see `GameMap::new_from_string`),
/// cities that do not grow, the level's tools and hint, and its default city
/// named after the level.
pub fn new_level(level_number: usize) -> (r: GameMap)
    requires
        level_number < LEVEL_COUNT,
        map_string_fits(spec_level(level_number).grid@),
    ensures
        r.wf(),
        parsed_from(words(spec_level(level_number).grid@), r.grid),
        r.metadata.is_level,
        !r.metadata.grow_cities,
        !r.metadata.level_complete,
        r.metadata.level_number == level_number,
        r.metadata.unlocks == spec_level(level_number).unlocked,
        r.metadata.level_hint matches Some(h) && h@ == spec_level(level_number).hint@,
        r.cities@.dom() == set![DEFAULT_CITY_ID],
        r.cities@[DEFAULT_CITY_ID].name@ == spec_level(level_number).name@,
        r.cities@[DEFAULT_CITY_ID].houses@.to_set() == r.grid.buildings@.dom(),
        r.vehicles@.dom() == Set::<crate::hash_map_id::Id>::empty(),
        r.tick == 0,
{
    let level = level(level_number);
    let mut map = GameMap::new_from_string(level.grid);
    map.metadata.is_level = true;
    map.metadata.grow_cities = false;
    map.metadata.level_complete = false;
    map.metadata.level_number = level_number;
    map.metadata.unlocks = level.unlocked;
    map.metadata.level_hint = Some(level.hint.to_string());
    map.rename_city(DEFAULT_CITY_ID, level.name.to_string());
    map
}

} // verus!
