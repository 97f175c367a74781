use rand::Rng;
use vstd::prelude::*;

verus! {

/// Relies on `rand::thread_rng` and `rand::Rng::gen_range` over the
/// half-open range `low..high`: a uniformly distributed sample lying in the
/// range.  `gen_range` panics on an empty range, which `low < high` rules out.
#[verifier::external_body]
pub(crate) fn sample_below(low: i32, high: i32) -> (r: i32)
    requires
        low < high,
    ensures
        low <= r < high,
{
    rand::thread_rng().gen_range(low..high)
}

/// Relies on `rand::thread_rng` and `rand::Rng::gen_range` over the
/// inclusive range `low..=high`: a uniformly distributed sample lying in the
/// range.  `gen_range` panics on an empty range, which `low <= high` rules out.
#[verifier::external_body]
pub(crate) fn sample_through(low: i32, high: i32) -> (r: i32)
    requires
        low <= high,
    ensures
        low <= r <= high,
{
    rand::thread_rng().gen_range(low..=high)
}

} // verus!
