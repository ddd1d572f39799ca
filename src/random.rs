//! The pseudo-random sources that the random producers draw from.
use vstd::prelude::*;

verus! {

#[verifier::external_type_specification]
#[verifier::external_body]
pub struct ExSmallRng(rand::rngs::SmallRng);

/// Relies on `rand::SeedableRng::from_entropy` for `SmallRng`: a generator
/// seeded from the operating system, different on every run.
#[verifier::external_body]
pub(crate) fn rng_from_entropy() -> (r: rand::rngs::SmallRng) {
    <rand::rngs::SmallRng as rand::SeedableRng>::from_entropy()
}

/// Relies on `rand::Rng::gen_range` with an inclusive range of `i32`: it panics
/// only on an empty range and otherwise returns a value inside the range.
#[verifier::external_body]
pub(crate) fn draw_between(rng: &mut rand::rngs::SmallRng, lo: i32, hi: i32) -> (r: i32)
    requires
        lo <= hi,
    ensures
        lo <= r <= hi,
{
    rand::Rng::gen_range(rng, lo..=hi)
}

/// Relies on `rand::Rng::gen_ratio`: it panics when `denominator` is zero or
/// below `numerator`, returns `true` for sure when the two are equal, and
/// `false` for sure when `numerator` is zero.
#[verifier::external_body]
pub(crate) fn draw_ratio(rng: &mut rand::rngs::SmallRng, numerator: u32, denominator: u32) -> (r: bool)
    requires
        0 < denominator,
        numerator <= denominator,
    ensures
        numerator == denominator ==> r,
        numerator == 0 ==> !r,
{
    rand::Rng::gen_ratio(rng, numerator, denominator)
}

} // verus!
