use vstd::prelude::*;

verus! {

/// An entry of a menu: the value it stands for and its label.
#[derive(Clone)]
pub struct MenuItem<V> {
    pub value: V,
    pub label: String,
}

impl<V> MenuItem<V> {
    pub fn new(value: V, label: String) -> (r: Self)
        ensures
            r.value == value,
            r.label == label,
    {
        Self { value, label }
    }
}

/// A menu: its entries from top to bottom.
pub struct Menu<V> {
    pub items: Vec<MenuItem<V>>,
}

impl<V> Menu<V> {
    pub fn new(items: Vec<MenuItem<V>>) -> (r: Self)
        ensures
            r.items == items,
    {
        Self { items }
    }
}

} // verus!
