use vstd::prelude::*;
use rand::RngCore;

verus! {

/// Relies on `rand::thread_rng` and `RngCore::next_u64`: a fresh 64-bit word
/// from the thread-local generator. Nothing is promised of its value; every
/// caller states what holds whatever comes back.
#[verifier::external_body]
pub(crate) fn random_u64() -> u64 {
    rand::thread_rng().next_u64()
}

} // verus!
