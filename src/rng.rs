use rand::Rng;
use vstd::prelude::*;

verus! {

/// Relies on rand's `thread_rng().gen_range(lo..hi)`: a value in `[lo, hi)`;
/// it panics on an empty range, which `requires` leaves out.
#[verifier::external_body]
pub(crate) fn random_range(lo: i32, hi: i32) -> (r: i32)
    requires
        lo < hi,
    ensures
        lo <= r < hi,
{
    rand::thread_rng().gen_range(lo..hi)
}

} // verus!
