//! Trusted boundary to the `fastrand` crate, the library's only source of
//! pseudo-random numbers. Nothing is assumed about which values come out,
//! only about their range.

use vstd::prelude::*;

verus! {

#[verifier::external_type_specification]
#[verifier::external_body]
pub struct ExRng(fastrand::Rng);

/// Relies on fastrand::Rng::u8 called with a half-open range: the result
/// lies in `[lo, hi)`. The range must be non-empty, or the call panics.
#[verifier::external_body]
pub(crate) fn rng_u8_range(rng: &mut fastrand::Rng, lo: u8, hi: u8) -> (r: u8)
    requires
        lo < hi,
    ensures
        lo <= r < hi,
{
    rng.u8(lo..hi)
}

} // verus!
