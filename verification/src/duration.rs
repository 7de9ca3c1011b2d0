//! Lengths of time.

use std::time::Duration;
use vstd::prelude::*;

verus! {

/// What `Duration::as_nanos` gives: the length in nanoseconds.
pub uninterp spec fn duration_nanos(duration: Duration) -> nat;

/// `Duration::from_secs` makes a duration of that many whole seconds.
pub assume_specification[ std::time::Duration::from_secs ](secs: u64) -> (r: std::time::Duration)
    ensures
        duration_nanos(r) == secs as nat * 1_000_000_000,
;

/// `Duration::from_millis` makes a duration of that many milliseconds.
pub assume_specification[ std::time::Duration::from_millis ](millis: u64) -> (r:
    std::time::Duration)
    ensures
        duration_nanos(r) == millis as nat * 1_000_000,
;

} // verus!
