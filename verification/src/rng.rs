//! Random choices, from the `rand` crate's thread-local generator.

use vstd::prelude::*;

verus! {

/// `rand::RngExt::random_range` on `rand::rng()`, over `lo..hi`. The value
/// is drawn at random; what holds of every outcome is `lo <= r < hi`. The
/// call panics on an empty range, which `requires` leaves out.
#[verifier::external_body]
pub(crate) fn random_below(lo: u64, hi: u64) -> (r: u64)
    requires
        lo < hi,
    ensures
        lo <= r < hi,
{
    rand::RngExt::random_range(&mut rand::rng(), lo..hi)
}

/// `rand::seq::IndexedRandom::choose` on `rand::rng()`: a randomly chosen
/// element of `v`, or `None` when `v` is empty. Which element comes back is
/// left open; it is one of `v`'s.
#[verifier::external_body]
pub(crate) fn choose_one(v: &Vec<String>) -> (r: Option<String>)
    ensures
        r is None <==> v@.len() == 0,
        r matches Some(s) ==> v@.contains(s),
{
    rand::seq::IndexedRandom::choose(v.as_slice(), &mut rand::rng()).cloned()
}

} // verus!
