use vstd::prelude::*;

verus! {

/// Calls `macroquad::rand::gen_range` on `usize` bounds. The generator scales a
/// pseudo-random `u32` by `high - low` through `f64` and adds `low`; from
/// `low == 0` and `high` at most `2^32` the product stays below `high`, so every
/// outcome lies in `[0, high)` (with `low > 0` rounding can reach `high`). Which
/// value comes back is left unsaid: it depends on the state of the
/// process-wide generator.
#[verifier::external_body]
pub(crate) fn gen_range_usize(low: usize, high: usize) -> (r: usize)
    requires
        low == 0,
        low < high,
        high <= 0x1_0000_0000,
    ensures
        low <= r < high,
{
    macroquad::rand::gen_range(low, high)
}

/// Calls `macroquad::rand::gen_range` on `u32` bounds; from `low == 0` every
/// outcome lies in `[0, high)` (the `f64` product of a `u32` below `2^32` and
/// `high / 2^32` stays below `high`; with `low > 0` rounding can reach `high`),
/// which one is left unsaid (it depends on the generator's state).
#[verifier::external_body]
pub(crate) fn gen_range_u32(low: u32, high: u32) -> (r: u32)
    requires
        low == 0,
        low < high,
    ensures
        low <= r < high,
{
    macroquad::rand::gen_range(low, high)
}

/// Calls `macroquad::rand::srand`, which reseeds the process-wide generator.
#[verifier::external_body]
pub(crate) fn seed_random(seed: u64) {
    macroquad::rand::srand(seed)
}

} // verus!
