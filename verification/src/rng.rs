//! Deterministic integer randomness shared by the simulations and the building generator.

use vstd::prelude::*;

verus! {

/// LCG multiplier.
pub const LCG_MULTIPLIER: u64 = 6364136223846793005;

/// 64-bit linear congruential generator; a zero seed starts from 1.
#[derive(Debug, Clone, Copy, PartialEq, Eq, Structural)]
pub struct LcgRng {
    pub state: u64,
}

/// The state after `state`: `state * 6364136223846793005 + 1` modulo `2^64`.
pub open spec fn lcg_next(state: u64) -> u64 {
    state.wrapping_mul(LCG_MULTIPLIER).wrapping_add(1)
}

impl LcgRng {
    /// A generator seeded with `seed` (0 is replaced by 1).
    pub fn new(seed: u64) -> (r: Self)
        ensures
            r.state == (if seed >= 1 { seed } else { 1 }),
    {
        LcgRng { state: if seed >= 1 { seed } else { 1 } }
    }

    /// Advances the generator and returns the new state.
    pub fn next_u64(&mut self) -> (v: u64)
        ensures
            final(self).state == lcg_next(old(self).state),
            v == final(self).state,
    {
        self.state = self.state.wrapping_mul(LCG_MULTIPLIER).wrapping_add(1);
        self.state
    }
}

/// The hash of a facade cell: a 64-bit finalizer over the seed and cell coordinates, low
/// byte kept.
pub open spec fn cell_hash(seed: u64, row: u32, col: u32) -> u32 {
    let x0 = seed ^ ((row as u64) << 32u64) ^ (col as u64);
    let x1 = x0 ^ (x0 >> 33u64);
    let x2 = x1.wrapping_mul(0xff51_afed_0b33_aaad);
    let x3 = x2 ^ (x2 >> 33u64);
    (x3 & 0xff) as u32
}

/// Hashes a facade cell `(row, col)` under `seed` to a value in `0..256`.
pub fn hash_coords(seed: u64, row: u32, col: u32) -> (h: u32)
    ensures
        h == cell_hash(seed, row, col),
        h < 256,
{
    let mut x: u64 = seed ^ ((row as u64) << 32u64) ^ (col as u64);
    x = x ^ (x >> 33u64);
    x = x.wrapping_mul(0xff51_afed_0b33_aaad);
    x = x ^ (x >> 33u64);
    let r = x & 0xff;
    assert(r < 256) by (bit_vector) requires r == x & 0xff;
    r as u32
}

/// The hash behind an instance's placement jitter: a 64-bit finalizer over the seed and the
/// golden-ratio multiple of `index + 1`, low 16 bits kept.
pub open spec fn jitter_hash(seed: u64, index: u32) -> u32 {
    let x0 = seed ^ ((index + 1) as u64).wrapping_mul(0x9e37_79b9_7f4a_7c15);
    let x1 = x0 ^ (x0 >> 33u64);
    let x2 = x1.wrapping_mul(0xff51_afed_0b33_aaad);
    let x3 = x2 ^ (x2 >> 33u64);
    (x3 & 0xffff) as u32
}

/// Hashes instance `index` under `seed` to a value in `0..65536` (the integer half of the
/// placement jitter, which maps it onto `-1.0..=1.0`).
pub fn placement_hash(seed: u64, index: u32) -> (h: u32)
    ensures
        h == jitter_hash(seed, index),
        h < 65536,
{
    let k: u64 = index as u64 + 1;
    let mut x: u64 = seed ^ k.wrapping_mul(0x9e37_79b9_7f4a_7c15);
    x = x ^ (x >> 33u64);
    x = x.wrapping_mul(0xff51_afed_0b33_aaad);
    x = x ^ (x >> 33u64);
    let r = x & 0xffff;
    assert(r < 65536) by (bit_vector) requires r == x & 0xffff;
    r as u32
}

} // verus!
