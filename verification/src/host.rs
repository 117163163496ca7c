//! What only the running machine can give: random numbers and the clock.

use rand::Rng;
use vstd::prelude::*;

verus! {

/// `rand::thread_rng().gen::<u32>()`: a number from the thread's random
/// generator. Nothing is promised of it.
#[verifier::external_body]
pub(crate) fn random_u32() -> u32 {
    rand::thread_rng().gen::<u32>()
}

/// `UNIX_EPOCH.elapsed()` of std, in whole seconds: the machine's clock. A
/// clock set before 1970 reads as 0. Nothing is promised of the result.
#[verifier::external_body]
pub(crate) fn unix_seconds() -> u64 {
    match std::time::UNIX_EPOCH.elapsed() {
        Ok(since) => since.as_secs(),
        Err(_) => 0,
    }
}

} // verus!
