//! Uniform random draws, the one place the library touches the system's
//! random source.

use vstd::prelude::*;

use rand::Rng;

verus! {

/// Relies on `rand::Rng::gen_range` over the half-open range `min..max`:
/// it returns a uniform draw from `[min, max)` and panics only when the
/// range is empty, which the precondition rules out.
#[verifier::external_body]
pub(crate) fn random_range(min: u32, max: u32) -> (r: u32)
    requires
        min < max,
    ensures
        min <= r < max,
{
    rand::thread_rng().gen_range(min..max)
}

/// A uniform draw from `[0, value)`.
pub(crate) fn random(value: u32) -> (r: u32)
    requires
        value > 0,
    ensures
        r < value,
{
    random_range(0, value)
}

} // verus!
