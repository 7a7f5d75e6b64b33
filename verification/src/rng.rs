//! The library's single injected source of randomness.
//!
//! Every operation that consumes randomness takes a `rand_chacha::ChaCha8Rng`
//! handed in by the caller, so a whole run is reproducible from one seed; no
//! component owns a private generator. The generator itself is outside code:
//! it is declared opaquely and reached through one trusted draw function.

use vstd::prelude::*;
use rand::Rng;

verus! {

#[verifier::external_type_specification]
#[verifier::external_body]
pub struct ExChaCha8Rng(rand_chacha::ChaCha8Rng);

/// Relies on rand's `Rng::random_range` over the inclusive range `lo..=hi`:
/// the drawn value lies between the bounds. Nothing more is assumed of it; a
/// nonempty range never panics.
#[verifier::external_body]
pub(crate) fn draw_i64(rng: &mut rand_chacha::ChaCha8Rng, lo: i64, hi: i64) -> (r: i64)
    requires
        lo <= hi,
    ensures
        lo <= r <= hi,
{
    rng.random_range(lo..=hi)
}

} // verus!
