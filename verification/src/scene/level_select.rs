use vstd::prelude::*;

use crate::map::levels::LEVEL_COUNT;
use crate::ui::menu::{Menu, MenuItem};

verus! {

broadcast use vstd::string::to_string_from_display_ensures_for_str;

/// The character of digit `d` (below ten).
pub open spec fn digit_char(d: nat) -> char {
    ((d + 0x30) as u32) as char
}

/// The decimal text of `n`, without leading zeros.
pub open spec fn decimal(n: nat) -> Seq<char>
    decreases n,
{
    if n < 10 {
        seq![digit_char(n)]
    } else {
        decimal(n / 10).push(digit_char(n % 10))
    }
}

/// The decimal text of a single digit.
fn digit_text(d: usize) -> (r: String)
    requires
        d < 10,
    ensures
        r@ == decimal(d as nat),
{
    let s: &str = match d {
        0 => "0",
        1 => "1",
        2 => "2",
        3 => "3",
        4 => "4",
        5 => "5",
        6 => "6",
        7 => "7",
        8 => "8",
        _ => "9",
    };
    proof {
        reveal_strlit("0");
        reveal_strlit("1");
        reveal_strlit("2");
        reveal_strlit("3");
        reveal_strlit("4");
        reveal_strlit("5");
        reveal_strlit("6");
        reveal_strlit("7");
        reveal_strlit("8");
        reveal_strlit("9");
    }
    s.to_string()
}

/// The level picker: one menu entry per level, valued by its number.
pub struct LevelSelect {
    pub menu: Menu<i32>,
}

impl LevelSelect {
    /// A menu entry for each level, labelled with its number in decimal.
    pub fn new() -> (r: Self)
        ensures
            r.menu.items@.len() == LEVEL_COUNT,
            forall|i: int| 0 <= i < LEVEL_COUNT ==> #[trigger] r.menu.items@[i].value == i,
            forall|i: int| 0 <= i < LEVEL_COUNT ==> #[trigger] r.menu.items@[i].label@ == decimal(i as nat),
    {
        let mut menu: Menu<i32> = Menu::new(Vec::new());
        let mut i: usize = 0;
        while i < LEVEL_COUNT
            invariant
                0 <= i <= LEVEL_COUNT,
                menu.items@.len() == i,
                forall|j: int| 0 <= j < i ==> #[trigger] menu.items@[j].value == j,
                forall|j: int| 0 <= j < i ==> #[trigger] menu.items@[j].label@ == decimal(j as nat),
            decreases LEVEL_COUNT - i,
        {
            menu.items.push(MenuItem::new(i as i32, digit_text(i)));
            i = i + 1;
        }
        Self { menu }
    }
}

} // verus!
