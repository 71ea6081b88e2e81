//! The wall clock.

use vstd::prelude::*;

verus! {

/// Reads the wall clock through `chrono`'s `Utc::now` and returns its
/// `timestamp`: whole seconds since the Unix epoch. Two readings may differ,
/// so nothing is promised of the value. `chrono` gives up on a system clock
/// that stands before the epoch.
#[verifier::external_body]
pub(crate) fn unix_now() -> (now: i64) {
    chrono::Utc::now().timestamp()
}

} // verus!
