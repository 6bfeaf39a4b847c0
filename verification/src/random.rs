//! Randomness for spawning, behind one trusted item.
//!
//! Nothing can be promised of a random draw beyond its range, so every
//! function that consumes one is verified for every value in that range.

use vstd::prelude::*;
use rand::Rng;

verus! {

/// Relies on rand::Rng::gen_range on the thread-local generator: returns
/// a value of the given inclusive range, and panics only on an empty
/// range, which the precondition rules out.
#[verifier::external_body]
pub fn random_in_range(lo: i64, hi: i64) -> (r: i64)
    requires
        lo <= hi,
    ensures
        lo <= r <= hi,
{
    rand::thread_rng().gen_range(lo..=hi)
}

} // verus!
