use vstd::prelude::*;
use rand::rngs::SmallRng;
use rand::seq::SliceRandom;
use rand::{Rng, SeedableRng};
use crate::graphics::Rgb;

verus! {

/// The small, fast pseudo-random generator of `rand`.
#[verifier::external_type_specification]
#[verifier::external_body]
pub struct ExSmallRng(rand::rngs::SmallRng);

/// `SeedableRng::seed_from_u64` for `SmallRng`: a generator started from
/// `seed`. Its stream depends on the platform's word size, so nothing is
/// stated of it.
#[verifier::external_body]
pub(crate) fn small_rng_from_seed(seed: u64) -> SmallRng {
    SmallRng::seed_from_u64(seed)
}

/// `Rng::gen_range` on `low..high` for `i32`: claims only that the value
/// lies in the half-open range, which the outside code asserts is not empty.
#[verifier::external_body]
pub(crate) fn gen_range_i32(rng: &mut SmallRng, low: i32, high: i32) -> (v: i32)
    requires
        low < high,
    ensures
        low <= v < high,
{
    rng.gen_range(low..high)
}

/// `Rng::gen_range` on `low..high` for `u8`: claims only that the value
/// lies in the half-open range, which the outside code asserts is not empty.
#[verifier::external_body]
pub(crate) fn gen_range_u8(rng: &mut SmallRng, low: u8, high: u8) -> (v: u8)
    requires
        low < high,
    ensures
        low <= v < high,
{
    rng.gen_range(low..high)
}

/// `SliceRandom::shuffle` on four colours: the outside code only swaps
/// elements, so the colours afterwards are those before, in some order. The
/// order depends on the generator and is not stated.
#[verifier::external_body]
pub(crate) fn shuffle_colors(colors: &mut [Rgb; 4], rng: &mut SmallRng)
    ensures
        final(colors)@.to_multiset() == old(colors)@.to_multiset(),
{
    colors.shuffle(rng)
}

} // verus!
