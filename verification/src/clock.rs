//! The monotonic clock of the standard library, as the timing of a run
//! uses it.

use vstd::prelude::*;
use std::time::{Duration, Instant};
use crate::elapsed::{Elapsed, NANOS_PER_SEC};

verus! {

/// `std::time::Instant`, a reading of the monotonic clock. Nothing is known
/// of what a value holds.
#[verifier::external_type_specification]
#[verifier::external_body]
pub struct ExInstant(Instant);

/// `Instant::now` reads the clock; nothing is claimed of the reading.
pub assume_specification[ Instant::now ]() -> Instant
;

/// `Instant::elapsed` gives the time since the reading was taken; nothing
/// is claimed of its length.
pub assume_specification[ Instant::elapsed ](start: &Instant) -> Duration
;

/// `Duration::as_secs` gives the whole seconds of a duration; nothing is
/// claimed of their number.
pub assume_specification[ Duration::as_secs ](duration: &Duration) -> u64
;

/// `Duration::subsec_nanos` gives the fractional part of a duration in
/// nanoseconds, which std documents to be less than one second.
pub assume_specification[ Duration::subsec_nanos ](duration: &Duration) -> (nanos: u32)
    ensures
        nanos < NANOS_PER_SEC,
;

/// The time since `start`, as the clock gives it.
pub(crate) fn elapsed_since(start: &Instant) -> Elapsed {
    let duration = start.elapsed();
    Elapsed::of(duration.as_secs(), duration.subsec_nanos())
}

} // verus!
