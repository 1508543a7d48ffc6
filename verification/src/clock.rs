//! The wall clock, read for block timestamps.

use std::time::{SystemTime, UNIX_EPOCH};
use vstd::prelude::*;

verus! {

/// Reads `SystemTime::now` as whole seconds since the Unix epoch, or zero
/// where the clock stands before the epoch. Nothing is claimed of the
/// value.
#[verifier::external_body]
pub(crate) fn unix_seconds() -> u64 {
    match SystemTime::now().duration_since(UNIX_EPOCH) {
        Ok(elapsed) => elapsed.as_secs(),
        Err(_) => 0,
    }
}

} // verus!
