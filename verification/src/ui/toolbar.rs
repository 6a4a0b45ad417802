use vstd::prelude::*;

use crate::tileset::Sprite;

verus! {

/// A button of a toolbar: the value it picks, its tooltip, its keyboard
/// shortcut and its picture.
#[derive(Clone, Copy)]
pub struct ToolbarItem<V> {
    pub value: V,
    pub _tooltip: &'static str,
    pub shortcut: char,
    pub sprite: Sprite,
}

impl<V> ToolbarItem<V> {
    pub fn new(value: V, _tooltip: &'static str, shortcut: char, sprite: Sprite) -> (r: Self)
        ensures
            r.value == value,
            r._tooltip == _tooltip,
            r.shortcut == shortcut,
            r.sprite == sprite,
    {
        Self { value, _tooltip, shortcut, sprite }
    }
}

/// Pressing item `i` of a toolbar whose picked item is `selected`: pressing
/// the picked item again unpicks it, pressing another picks that one.
pub open spec fn toggled(selected: Option<usize>, i: usize) -> Option<usize> {
    if selected == Some(i) {
        None
    } else {
        Some(i)
    }
}

/// The picked item after item `i` is pressed (see `toggled`).
pub fn toggle(selected: Option<usize>, i: usize) -> (r: Option<usize>)
    ensures
        r == toggled(selected, i),
{
    match selected {
        Some(s) => if s == i {
            None
        } else {
            Some(i)
        },
        None => Some(i),
    }
}

/// The picked item and the pressed item after a frame of the mouse over a
/// toolbar: releasing the button forgets the press; pressing it over item
/// `hovered`, when no press is held, presses that item (see `toggled`) and
/// holds the press, so one press toggles once.
pub open spec fn spec_press(selected: Option<usize>, latch: Option<usize>, hovered: Option<usize>, down: bool) -> (
    Option<usize>,
    Option<usize>,
) {
    if !down {
        (selected, None)
    } else {
        match hovered {
            Some(i) => if latch is None {
                (toggled(selected, i), Some(i))
            } else {
                (selected, latch)
            },
            None => (selected, latch),
        }
    }
}

/// One frame of the mouse over a toolbar (see `spec_press`).
pub fn press_step(selected: Option<usize>, latch: Option<usize>, hovered: Option<usize>, down: bool) -> (r: (
    Option<usize>,
    Option<usize>,
))
    ensures
        r == spec_press(selected, latch, hovered, down),
{
    if !down {
        return (selected, None);
    }
    match hovered {
        Some(i) => if latch.is_none() {
            (toggle(selected, i), Some(i))
        } else {
            (selected, latch)
        },
        None => (selected, latch),
    }
}

/// The picked item after key `key` is pressed: the first item with that
/// shortcut is pressed (see `toggled`); a key that is no item's shortcut
/// changes nothing.
pub fn key_selection<V>(items: &Vec<ToolbarItem<V>>, selected: Option<usize>, key: char) -> (r: Option<usize>)
    ensures
        (forall|j: int| 0 <= j < items@.len() ==> (#[trigger] items@[j]).shortcut != key) ==> r == selected,
        forall|i: int|
            0 <= i < items@.len() && (#[trigger] items@[i]).shortcut == key && (forall|j: int|
                0 <= j < i ==> (#[trigger] items@[j]).shortcut != key) ==> r == toggled(selected, i as usize),
        r == selected || r is None || (r matches Some(j) && j < items@.len()),
{
    let mut i: usize = 0;
    while i < items.len()
        invariant
            0 <= i <= items@.len(),
            forall|j: int| 0 <= j < i ==> (#[trigger] items@[j]).shortcut != key,
        decreases items@.len() - i,
    {
        if items[i].shortcut == key {
            return toggle(selected, i);
        }
        i = i + 1;
    }
    selected
}

/// Which way a toolbar's buttons line up.
#[derive(Clone, Copy, PartialEq, Eq, Structural, Debug)]
pub enum ToolbarType {
    Horizontal,
    Veritcal,
}

/// A row or column of picture buttons: its items, the one picked (if any),
/// and the one pressed while the mouse button is held.
pub struct Toolbar<V> {
    kind: ToolbarType,
    selected: Option<usize>,
    mouse_down: Option<usize>,
    items: Vec<ToolbarItem<V>>,
}

impl<V> Toolbar<V> {
    /// The picked item is one of the items.
    #[verifier::type_invariant]
    spec fn picked_in_range(self) -> bool {
        self.selected matches Some(i) ==> i < self.items@.len()
    }

    pub closed spec fn spec_kind(&self) -> ToolbarType {
        self.kind
    }

    pub closed spec fn spec_selected(&self) -> Option<usize> {
        self.selected
    }

    pub closed spec fn spec_pressed(&self) -> Option<usize> {
        self.mouse_down
    }

    pub closed spec fn spec_items(&self) -> Seq<ToolbarItem<V>> {
        self.items@
    }

    /// A toolbar of `items`, nothing picked or pressed.
    pub fn new(kind: ToolbarType, items: Vec<ToolbarItem<V>>) -> (r: Self)
        ensures
            r.spec_kind() == kind,
            r.spec_items() == items@,
            r.spec_selected() is None,
            r.spec_pressed() is None,
    {
        Toolbar { kind, selected: None, mouse_down: None, items }
    }

    pub fn kind(&self) -> (r: ToolbarType)
        ensures
            r == self.spec_kind(),
    {
        self.kind
    }

    /// The index of the picked item.
    pub fn get_selected_index(&self) -> (r: Option<usize>)
        ensures
            r == self.spec_selected(),
    {
        self.selected
    }

    pub fn items(&self) -> (r: &Vec<ToolbarItem<V>>)
        ensures
            r@ == self.spec_items(),
    {
        &self.items
    }

    /// Unpicks the picked item.
    pub fn clear_selected(&mut self)
        ensures
            final(self).spec_selected() is None,
            final(self).spec_items() == old(self).spec_items(),
            final(self).spec_kind() == old(self).spec_kind(),
            final(self).spec_pressed() == old(self).spec_pressed(),
    {
        self.selected = None;
    }

    /// The value of the picked item.
    pub fn get_selected(&self) -> (r: Option<&V>)
        ensures
            r == (match self.spec_selected() {
                Some(i) => Some(&self.spec_items()[i as int].value),
                None => None,
            }),
    {
        proof {
            use_type_invariant(self);
        }
        match self.selected {
            Some(i) => Some(&self.items[i].value),
            None => None,
        }
    }

    /// A key press (see `key_selection`).
    pub fn key_down(&mut self, key: char)
        ensures
            (forall|j: int| 0 <= j < old(self).spec_items().len() ==> (#[trigger] old(self).spec_items()[j]).shortcut
                != key) ==> final(self).spec_selected() == old(self).spec_selected(),
            forall|i: int|
                0 <= i < old(self).spec_items().len() && (#[trigger] old(self).spec_items()[i]).shortcut == key
                    && (forall|j: int| 0 <= j < i ==> (#[trigger] old(self).spec_items()[j]).shortcut != key)
                    ==> final(self).spec_selected() == toggled(old(self).spec_selected(), i as usize),
            final(self).spec_items() == old(self).spec_items(),
            final(self).spec_kind() == old(self).spec_kind(),
            final(self).spec_pressed() == old(self).spec_pressed(),
    {
        proof {
            use_type_invariant(&*self);
        }
        let selected = key_selection(&self.items, self.selected, key);
        proof {
            if forall|j: int| 0 <= j < self.spec_items().len() ==> (#[trigger] self.spec_items()[j]).shortcut != key {
                assert forall|j: int| 0 <= j < self.items@.len() implies (#[trigger] self.items@[j]).shortcut != key by {
                    assert(self.spec_items()[j] == self.items@[j]);
                }
            }
        }
        self.selected = selected;
    }

    /// A frame of the mouse over the toolbar with item `hovered` under it
    /// (see `spec_press`).
    pub fn press(&mut self, hovered: Option<usize>, down: bool)
        requires
            hovered matches Some(h) ==> h < old(self).spec_items().len(),
        ensures
            (final(self).spec_selected(), final(self).spec_pressed()) == spec_press(
                old(self).spec_selected(),
                old(self).spec_pressed(),
                hovered,
                down,
            ),
            final(self).spec_items() == old(self).spec_items(),
            final(self).spec_kind() == old(self).spec_kind(),
    {
        proof {
            use_type_invariant(&*self);
        }
        let (selected, pressed) = press_step(self.selected, self.mouse_down, hovered, down);
        self.selected = selected;
        self.mouse_down = pressed;
    }
}

impl<V: Copy> Toolbar<V> {
    /// Gives item `i` another picture.
    pub fn set_sprite(&mut self, i: usize, sprite: Sprite)
        requires
            i < old(self).spec_items().len(),
        ensures
            final(self).spec_items().len() == old(self).spec_items().len(),
            forall|j: int|
                0 <= j < old(self).spec_items().len() ==> #[trigger] final(self).spec_items()[j] == (if j == i {
                    ToolbarItem { sprite, ..old(self).spec_items()[j] }
                } else {
                    old(self).spec_items()[j]
                }),
            final(self).spec_kind() == old(self).spec_kind(),
            final(self).spec_selected() == old(self).spec_selected(),
            final(self).spec_pressed() == old(self).spec_pressed(),
    {
        proof {
            use_type_invariant(&*self);
        }
        let mut items: Vec<ToolbarItem<V>> = Vec::new();
        let mut k: usize = 0;
        while k < self.items.len()
            invariant
                0 <= k <= self.items@.len(),
                i < self.items@.len(),
                items@.len() == k,
                forall|j: int| 0 <= j < k ==> #[trigger] items@[j] == (if j == i {
                    ToolbarItem { sprite, ..self.items@[j] }
                } else {
                    self.items@[j]
                }),
            decreases self.items@.len() - k,
        {
            let item = self.items[k];
            if k == i {
                items.push(ToolbarItem { sprite, ..item });
            } else {
                items.push(item);
            }
            k = k + 1;
        }
        self.items = items;
    }

}

} // verus!
