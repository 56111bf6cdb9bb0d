use rand::Rng;
use vstd::prelude::*;

verus! {

/// Calls `rand::Rng::gen_range(low, high)` on the generator that
/// `rand::thread_rng` hands out. rand documents the result as drawn from
/// `low` (included) to `high` (excluded), and the call panics where
/// `low >= high`, which `requires` leaves out. Which value in the range comes
/// back rests on chance, so the contract says no more than the range.
#[verifier::external_body]
pub(crate) fn random_in_range(low: u64, high: u64) -> (r: u64)
    requires
        low < high,
    ensures
        low <= r < high,
{
    rand::thread_rng().gen_range(low, high)
}

} // verus!
