//! Random numbers.
use rand::Rng;
use vstd::prelude::*;

verus! {

/// Draws from `low..high` with `rand::Rng::gen_range` on the thread's generator. The number lies in
/// the range; which one it is rests on chance. An empty range would panic and is left out.
#[verifier::external_body]
pub(crate) fn random_in(low: u64, high: u64) -> (r: u64)
    requires
        low < high,
    ensures
        low <= r < high,
{
    rand::thread_rng().gen_range(low..high)
}

/// Draws any `u64` with `rand::Rng::gen` on the thread's generator. Nothing is claimed of it.
#[verifier::external_body]
pub(crate) fn random_u64() -> u64 {
    rand::thread_rng().gen::<u64>()
}

} // verus!
