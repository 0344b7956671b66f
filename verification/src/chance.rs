//! The game's dice. Nothing is known of a roll but its range, so every rule
//! that rolls is proved for whatever the dice show.

use rand::Rng;
use vstd::prelude::*;

verus! {

/// A roll of `rand::Rng::gen_range` over `0..bound`, on the generator that
/// `rand::thread_rng` hands out. The contract claims that the roll lies in
/// that half-open range, and nothing of which value it is. An empty range
/// makes `gen_range` panic, so `bound` must be positive. (`thread_rng`
/// itself panics where the operating system gives it no seed.)
#[verifier::external_body]
pub(crate) fn random_below(bound: u32) -> (roll: u32)
    requires
        bound > 0,
    ensures
        roll < bound,
{
    rand::thread_rng().gen_range(0..bound)
}

/// A draw of `rand::Rng::gen_ratio` on the generator that
/// `rand::thread_rng` hands out: true with a chance of `numerator` in
/// `denominator`. The contract claims nothing of the outcome. `gen_ratio`
/// panics on a zero denominator and on a numerator above the denominator,
/// so both are left out.
#[verifier::external_body]
pub(crate) fn random_ratio(numerator: u32, denominator: u32) -> (hit: bool)
    requires
        0 < denominator,
        numerator <= denominator,
{
    rand::thread_rng().gen_ratio(numerator, denominator)
}

/// A fair coin: `rand::random` at type `bool`. The contract claims nothing
/// of the outcome.
#[verifier::external_body]
pub(crate) fn random_bool() -> (heads: bool) {
    rand::random::<bool>()
}

} // verus!
