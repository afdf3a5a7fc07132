//! The wall clock, read as nanoseconds since a chosen origin.

use crate::timer::TimeError;
use std::time::{Duration, SystemTime, SystemTimeError};
use vstd::prelude::*;

verus! {

/// `std::time::SystemTime`, a point in time as the system clock reports it.
#[verifier::external_type_specification]
#[verifier::external_body]
pub struct ExSystemTime(SystemTime);

/// `std::time::SystemTimeError`, returned where one point in time is asked
/// to follow a later one.
#[verifier::external_type_specification]
#[verifier::external_body]
pub struct ExSystemTimeError(SystemTimeError);

/// `SystemTime::now` reads the system clock. Nothing is claimed of the
/// reading: the system clock is not monotonic.
pub assume_specification[ SystemTime::now ]() -> (now: SystemTime);

/// What `SystemTime::duration_since` answers for two points in time: the
/// span from `earlier` to `later`, or an error where `earlier` is the later
/// of the two.
pub uninterp spec fn span_between(later: SystemTime, earlier: SystemTime) -> Result<
    Duration,
    SystemTimeError,
>;

/// `SystemTime::duration_since` gives the time from `earlier` to `later`, or
/// an error where `earlier` is the later of the two. The answer depends on
/// the two points in time alone; it is named, not computed.
pub assume_specification[ SystemTime::duration_since ](
    later: &SystemTime,
    earlier: SystemTime,
) -> (elapsed: Result<Duration, SystemTimeError>)
    ensures
        elapsed == span_between(*later, earlier),
;

/// The length of a span of time in whole nanoseconds, as `Duration::as_nanos`
/// gives it.
pub uninterp spec fn nanos_of(span: Duration) -> u128;

/// `Duration::as_nanos` gives a span of time in whole nanoseconds. The number
/// depends on the span alone; it is named, not computed.
pub assume_specification[ Duration::as_nanos ](span: &Duration) -> (nanos: u128)
    ensures
        nanos == nanos_of(*span),
;

/// The reading that a clock gives for what the system answered when asked
/// for the time since the origin: the span in nanoseconds, or the error that
/// the clock ran backwards where the system answered with an error.
pub open spec fn reading_of(elapsed: Result<Duration, SystemTimeError>) -> Result<u128, TimeError> {
    match elapsed {
        Ok(span) => Ok(nanos_of(span)),
        Err(_) => Err(TimeError::ClockWentBackwards),
    }
}

/// A wall clock that counts from an origin.
pub struct WallClock {
    origin: SystemTime,
}

impl WallClock {
    /// The point in time from which the clock counts.
    pub closed spec fn origin(&self) -> SystemTime {
        self.origin
    }

    /// What the clock reads when the system clock is at `now`.
    pub open spec fn reading_at(&self, now: SystemTime) -> Result<u128, TimeError> {
        reading_of(span_between(now, self.origin()))
    }

    /// A clock whose origin is the present moment.
    pub fn start() -> WallClock {
        WallClock { origin: SystemTime::now() }
    }

    /// Moves the origin to the present moment.
    pub fn restart(&mut self) {
        self.origin = SystemTime::now();
    }

    /// Nanoseconds from the origin to the present moment: what the clock
    /// reads at the point in time that the system clock reports.
    ///
    /// Fails where the system clock now reads earlier than the origin.
    pub fn elapsed_nanos(&self) -> (result: Result<u128, TimeError>)
        ensures
            exists|now: SystemTime| result == #[trigger] self.reading_at(now),
    {
        let now = SystemTime::now();
        let result = reading(now.duration_since(self.origin));
        assert(result == self.reading_at(now));
        result
    }
}

/// The reading that a clock gives for what the system answered when asked
/// for the time since the origin.
pub fn reading(elapsed: Result<Duration, SystemTimeError>) -> (reading: Result<u128, TimeError>)
    ensures
        reading == reading_of(elapsed),
{
    match elapsed {
        Ok(span) => Ok(span.as_nanos()),
        Err(_) => Err(TimeError::ClockWentBackwards),
    }
}

} // verus!
