//! The random source of the map builder.
//!
//! The generator is `rand`'s seedable standard generator, so that a caller
//! who fixes the seed gets the same dungeon again. Nothing in this module is
//! verified: each function states what the `rand` crate documents of the
//! call it makes, and the rest of the library is proved against that alone.

use rand::Rng;
use rand::rngs::StdRng;
use vstd::prelude::*;

verus! {

/// `rand::rngs::StdRng`, carried through the library as an opaque value.
#[verifier::external_type_specification]
#[verifier::external_body]
pub struct ExStdRng(StdRng);

/// Calls `rand::Rng::gen_range(low, high)` on `usize`.
///
/// `rand` documents the result as lying in the half-open range from `low`
/// (inclusive) to `high` (exclusive), and documents a panic when
/// `low >= high`, which the precondition rules out. Nothing is said of which
/// value of the range comes back.
#[verifier::external_body]
pub(crate) fn roll_range(rng: &mut StdRng, low: usize, high: usize) -> (r: usize)
    requires
        low < high,
    ensures
        low <= r < high,
{
    rng.gen_range(low, high)
}

/// Calls `rand::Rng::gen::<bool>()`: a coin flip, of which nothing is promised.
#[verifier::external_body]
pub(crate) fn flip_coin(rng: &mut StdRng) -> (heads: bool)
{
    rng.gen::<bool>()
}

} // verus!
