use vstd::prelude::*;
use rustix::time::{clock_gettime, ClockId};

verus! {

/// Relies on rustix's `ClockId`: the clock selector is opaque data here,
/// only handed through to `clock_gettime`.
#[verifier::external_type_specification]
#[verifier::external_body]
pub struct ExClockId(ClockId);

/// Relies on rustix's `ClockId::Monotonic`: the selector for the clock that
/// never jumps backward, used for round trips and freshness.
#[verifier::external_body]
pub fn monotonic_clock_id() -> ClockId {
    ClockId::Monotonic
}

/// Relies on rustix's `ClockId::Realtime`: the selector for the wall clock,
/// used for midnight-relative ICMP timestamps.
#[verifier::external_body]
pub fn realtime_clock_id() -> ClockId {
    ClockId::Realtime
}

/// One clock reading, split into whole seconds and nanoseconds within the
/// second.
#[derive(Clone, Copy, Debug, PartialEq, Eq, Structural)]
pub struct Time {
    pub time_s: u64,
    pub time_ns: u64,
}

impl Time {
    /// Relies on `rustix::time::clock_gettime`: the chosen clock's current
    /// reading as a POSIX timespec, whose nanosecond field lies below one
    /// second; the clocks this shaper reads never return negative seconds.
    #[verifier::external_body]
    pub fn new(id: ClockId) -> (r: Time)
        ensures
            r.time_ns < 1_000_000_000,
    {
        let t = clock_gettime(id);
        Time { time_s: t.tv_sec as u64, time_ns: t.tv_nsec as u64 }
    }

    /// Milliseconds since the most recent local midnight (the form RFC 792
    /// timestamps use).
    pub fn get_time_since_midnight(&self) -> (r: i64)
        requires
            self.time_ns < 1_000_000_000,
        ensures
            r == (self.time_s as int % 86400) * 1000 + self.time_ns as int / 1_000_000,
            0 <= r < 86_400_000,
    {
        ((self.time_s % 86400) * 1000 + self.time_ns / 1_000_000) as i64
    }

    /// The reading as whole milliseconds. The seconds bound is the largest
    /// that cannot overflow the multiplication; the nanosecond bound is what
    /// `Time::new` guarantees of every reading.
    pub fn to_milliseconds(&self) -> (r: u64)
        requires
            self.time_s <= u64::MAX / 1000 - 1,
            self.time_ns < 1_000_000_000,
        ensures
            r == self.time_s * 1000 + self.time_ns as int / 1_000_000,
    {
        self.time_s * 1000 + self.time_ns / 1_000_000
    }
}

} // verus!
