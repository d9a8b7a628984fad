//! Spans of time, counted in nanoseconds.

use std::time::Duration;

use vstd::prelude::*;

verus! {

/// How long a `Duration` is.
pub uninterp spec fn nanoseconds(d: Duration) -> nat;

/// `Duration::from_secs`: that many seconds.
pub assume_specification[ Duration::from_secs ](secs: u64) -> (d: Duration)
    ensures
        nanoseconds(d) == secs * 1_000_000_000,
;

/// `Duration::from_millis`: that many milliseconds.
pub assume_specification[ Duration::from_millis ](millis: u64) -> (d: Duration)
    ensures
        nanoseconds(d) == millis * 1_000_000,
;

/// `Duration::as_nanos`: the length in nanoseconds.
pub assume_specification[ Duration::as_nanos ](d: &Duration) -> (n: u128)
    ensures
        n == nanoseconds(*d),
;

} // verus!
