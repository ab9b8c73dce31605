//! Angles and uniform random draws.

use crate::double::{Double, HIDDEN_BIT};
use vstd::prelude::*;

verus! {

/// The pattern of pi.
pub const PI: u64 = 0x4009_21FB_5444_2D18;

/// The pattern of 180.0.
pub const HALF_TURN: u64 = 0x4066_8000_0000_0000;

/// Calls `rand::random::<u64>()`: the next 64 bits of the calling thread's
/// generator. Two calls need not agree, so nothing is promised of the word.
/// The call fails only where the operating system has no seed for the
/// generator.
#[verifier::external_body]
fn random_word() -> (word: u64) {
    rand::random::<u64>()
}

pub open spec fn spec_degrees_to_radius(degrees: Double) -> Double {
    degrees * Double::from_bits(PI) / Double::from_bits(HALF_TURN)
}

/// An angle in degrees, in radians.
#[verifier::when_used_as_spec(spec_degrees_to_radius)]
pub fn degrees_to_radius(degrees: Double) -> (r: Double)
    ensures
        r == degrees_to_radius(degrees),
{
    degrees * Double::from_bits(PI) / Double::from_bits(HALF_TURN)
}

/// Whether a double is one of the `2^53` evenly spaced values of `[0, 1)`
/// that a uniform draw can take.
pub open spec fn is_unit_draw(u: Double) -> bool {
    &&& u.in_unit_interval()
    &&& exists|k: int| 0 <= k < 2 * HIDDEN_BIT && #[trigger] u.is_dyadic(k, 53)
}

pub open spec fn spec_unit_draw(word: u64) -> Double {
    Double::from_unit_fraction(word / 2048)
}

/// The draw that a random word stands for: its upper 53 bits, over `2^53`.
#[verifier::when_used_as_spec(spec_unit_draw)]
pub fn unit_draw(word: u64) -> (u: Double)
    ensures
        u == unit_draw(word),
        u.is_dyadic(word as int / 2048, 53),
        is_unit_draw(u),
{
    let u = Double::from_unit_fraction(word / 2048);
    assert(u.is_dyadic(word as int / 2048, 53));
    u
}

/// A uniform draw from `[0, 1)`.
pub fn random_double() -> (u: Double)
    ensures
        is_unit_draw(u),
{
    unit_draw(random_word())
}

pub open spec fn spec_lerp(min: Double, max: Double, u: Double) -> Double {
    min + (max - min) * u
}

/// The point of `[min, max)` that a draw `u` from `[0, 1)` stands for.
#[verifier::when_used_as_spec(spec_lerp)]
pub fn lerp(min: Double, max: Double, u: Double) -> (r: Double)
    ensures
        r == lerp(min, max, u),
{
    min + (max - min) * u
}

/// A uniform draw from `[min, max)`.
pub fn random_double_range(min: Double, max: Double) -> (r: Double)
    ensures
        exists|u: Double| is_unit_draw(u) && r == #[trigger] lerp(min, max, u),
{
    lerp(min, max, random_double())
}

} // verus!
