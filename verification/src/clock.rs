//! Elapsed time as a fixed-point number of seconds.
use crate::scalar::Scalar;
use core::time::Duration;
use vstd::prelude::*;

verus! {

/// The whole nanoseconds that a duration spans.
pub uninterp spec fn nanos_in(d: Duration) -> nat;

/// `Duration::as_nanos` returns the whole nanoseconds that the duration spans.
pub assume_specification[ Duration::as_nanos ](d: &Duration) -> (r: u128)
    ensures
        r == nanos_in(*d),
;

/// A span of `nanos` nanoseconds in seconds: cut to whole microseconds, and
/// saturated.
pub open spec fn seconds_of(nanos: nat) -> Scalar {
    Scalar::of(nanos as int / 1000)
}

/// The seconds in `nanos` nanoseconds.
pub fn seconds_from_nanos(nanos: u128) -> (r: Scalar)
    ensures
        r == seconds_of(nanos as nat),
{
    let micros: u128 = nanos / 1000;
    if micros > i64::MAX as u128 {
        Scalar::from_raw(i64::MAX)
    } else {
        Scalar::from_raw(micros as i64)
    }
}

/// The seconds that `d` spans.
pub fn seconds(d: Duration) -> (r: Scalar)
    ensures
        r == seconds_of(nanos_in(d)),
{
    seconds_from_nanos(d.as_nanos())
}

} // verus!
