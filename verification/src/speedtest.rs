//! Random colour commands for the throughput test.

use vstd::prelude::*;
use rand::rngs::ThreadRng;
use rand::Rng;

verus! {

#[verifier::external_type_specification]
#[verifier::external_body]
pub struct ExThreadRng(rand::rngs::ThreadRng);

/// Calls `rand::Rng::random_range` on `0..bound`, which returns a value from
/// that range. The call panics on an empty range, which `requires` excludes
/// (the thread-local generator can also fail when reseeding from the
/// operating system fails, which no argument controls). Which value comes
/// back is chance and is not stated.
#[verifier::external_body]
fn random_below(rng: &mut ThreadRng, bound: u32) -> (value: u32)
    requires
        bound > 0,
    ensures
        value < bound,
{
    rng.random_range(0..bound)
}

/// Calls `rand::Rng::random_range` on `0..=255`; any byte may come back, so
/// nothing is stated of it.
#[verifier::external_body]
fn random_channel(rng: &mut ThreadRng) -> (value: u8) {
    rng.random_range(0..=255u8)
}

/// The 16-bit LED index a drawn LED number is sent as.
pub open spec fn narrow_index(k: u32) -> u16 {
    k as u16
}

/// The colour command made from a drawn LED number and drawn colour: the
/// number narrowed to a 16-bit index, the colour unchanged.
pub fn write_from_draw(k: u32, r: u8, g: u8, b: u8) -> (write: (u16, u8, u8, u8))
    ensures
        write == (narrow_index(k), r, g, b),
{
    (k as u16, r, g, b)
}

/// One random colour command: an LED drawn below `num_led` (narrowed to the
/// 16-bit index the protocols carry) and a random colour.
pub fn random_write(rng: &mut ThreadRng, num_led: u32) -> (write: (u16, u8, u8, u8))
    requires
        num_led > 0,
    ensures
        exists|k: u32| k < num_led && write.0 == #[trigger] narrow_index(k),
{
    let k = random_below(rng, num_led);
    let r = random_channel(rng);
    let g = random_channel(rng);
    let b = random_channel(rng);
    write_from_draw(k, r, g, b)
}

} // verus!
