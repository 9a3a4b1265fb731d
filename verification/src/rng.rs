//! The one place the library draws randomness.

use vstd::prelude::*;

verus! {

/// Relies on rand 0.8's `Rng::gen_range` over `0..max`: it panics on an
/// empty range (hence the bound below) and otherwise samples a value of the
/// range, so the result is less than `max`. Nothing more is assumed: which
/// value comes back is random.
#[verifier::external_body]
pub(crate) fn random_below(max: u64) -> (r: u64)
    requires
        max > 0,
    ensures
        r < max,
{
    rand::Rng::gen_range(&mut rand::thread_rng(), 0..max)
}

} // verus!
