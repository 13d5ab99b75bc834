//! Random sampling, through the `rand` crate.
//!
//! Each rendering worker owns one independent seeded generator, so that
//! sample streams are uncorrelated between workers and a render can be
//! reproduced from its seeds. Nothing is assumed about which values come
//! back, only that a draw lands in its requested range; every algorithm is
//! verified for all possible draws.

use vstd::prelude::*;

verus! {

#[verifier::external_type_specification]
#[verifier::external_body]
pub struct ExStdRng(rand::rngs::StdRng);

/// Relies on rand's `StdRng::seed_from_u64` to build a generator from a
/// seed. Nothing is assumed of the stream it will produce.
#[verifier::external_body]
pub fn seed_rng(seed: u64) -> rand::rngs::StdRng {
    <rand::rngs::StdRng as rand::SeedableRng>::seed_from_u64(seed)
}

/// Relies on rand's `Rng::gen_range` over `lo..hi`: a sample inside the
/// half-open range, which is all its documentation promises. The nonempty
/// range keeps the call from panicking.
#[verifier::external_body]
pub(crate) fn rand_in_range(rng: &mut rand::rngs::StdRng, lo: i64, hi: i64) -> (r: i64)
    requires
        lo < hi,
    ensures
        lo <= r < hi,
{
    rand::Rng::gen_range(rng, lo..hi)
}

} // verus!
