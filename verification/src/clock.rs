//! The monotonic clock that the health store and the cache read.

use vstd::prelude::*;
use std::time::Instant;

verus! {

#[verifier::external_type_specification]
#[verifier::external_body]
pub struct ExInstant(Instant);

/// `Instant::now`: a reading of the monotonic clock. It depends on the time
/// at which it is taken, so nothing is stated of it.
#[verifier::external_body]
pub(crate) fn instant_now() -> Instant {
    Instant::now()
}

/// `Instant::elapsed`, converted to whole nanoseconds: the time that has
/// passed since `origin`. It depends on the time at which it is taken, so
/// nothing is stated of it.
#[verifier::external_body]
pub(crate) fn nanos_since(origin: &Instant) -> u128 {
    origin.elapsed().as_nanos()
}

/// `Instant::elapsed`, converted to whole milliseconds: the time that has
/// passed since `origin`. It depends on the time at which it is taken, so
/// nothing is stated of it.
#[verifier::external_body]
pub(crate) fn millis_since(origin: &Instant) -> u128 {
    origin.elapsed().as_millis()
}

/// The later of two times.
pub open spec fn later_time(a: u128, b: u128) -> u128 {
    if a >= b {
        a
    } else {
        b
    }
}

} // verus!
