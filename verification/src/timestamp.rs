//! Instants of log records.
//!
//! A record gives its wall-clock time as a count of microseconds since the
//! Unix epoch. It is kept as whole seconds and the nanoseconds past them:
//! the seconds are the count divided by one million, rounded down, and the
//! nanoseconds are the remainder times one thousand.

use chrono::{DateTime, Utc};
use vstd::prelude::*;

verus! {

/// An instant of UTC: whole seconds since the Unix epoch, and the
/// nanoseconds past them.
#[derive(Clone, Copy, Debug, PartialEq, Eq, Hash, Structural)]
pub struct Timestamp {
    pub secs: i64,
    pub nanos: u32,
}

/// A span of time, open at either end.
#[derive(Clone, Copy, Debug, PartialEq, Eq)]
pub struct DateTimeRange {
    pub from: Option<Timestamp>,
    pub untile: Option<Timestamp>,
}

/// Whether the calendar of `chrono` has the instant `nanos` nanoseconds past
/// the second `secs`: what `chrono::DateTime::from_timestamp` decides, which
/// is `None` for an instant too far from the common era.
pub uninterp spec fn calendar_has(secs: i64, nanos: u32) -> bool;

/// Calls `chrono::DateTime::from_timestamp` and says whether it made a
/// `DateTime<Utc>`. The contract only names that answer; the range of years
/// that `chrono` covers is not stated here.
#[verifier::external_body]
fn utc_exists(secs: i64, nanos: u32) -> (r: bool)
    ensures
        r == calendar_has(secs, nanos),
{
    DateTime::<Utc>::from_timestamp(secs, nanos).is_some()
}

impl Timestamp {
    /// The instant `micros` microseconds after the epoch (before it, where
    /// `micros` is negative).
    pub open spec fn at_micros(micros: i64) -> Timestamp {
        Timestamp {
            secs: (micros as int / 1_000_000) as i64,
            nanos: ((micros as int % 1_000_000) * 1000) as u32,
        }
    }

    /// The microseconds from the epoch to this instant, rounded down.
    pub open spec fn micros(self) -> int {
        self.secs * 1_000_000 + self.nanos as int / 1000
    }

    /// Whether this instant is a whole number of microseconds that fits in a
    /// 64-bit count.
    pub open spec fn wf(self) -> bool {
        &&& self.nanos < 1_000_000_000
        &&& self.nanos as int % 1000 == 0
        &&& i64::MIN <= self.micros() <= i64::MAX
    }

    /// Splits a count of microseconds into seconds and nanoseconds.
    pub fn from_micros(micros: i64) -> (r: Timestamp)
        ensures
            r == Timestamp::at_micros(micros),
            r.secs == micros as int / 1_000_000,
            r.nanos == (micros as int % 1_000_000) * 1000,
            r.wf(),
            r.micros() == micros,
    {
        if micros >= 0 {
            let secs: i64 = micros / 1_000_000;
            let rest: i64 = micros % 1_000_000;
            Timestamp { secs, nanos: (rest as u32) * 1000 }
        } else {
            let below: i64 = -(micros + 1);
            let whole: i64 = below / 1_000_000;
            let rest: i64 = below % 1_000_000;
            let secs: i64 = -whole - 1;
            let past: i64 = 999_999 - rest;
            assert(micros == secs * 1_000_000 + past);
            Timestamp { secs, nanos: (past as u32) * 1000 }
        }
    }

    /// The count of microseconds that this instant was split from.
    pub fn to_micros(&self) -> (m: i64)
        requires
            self.wf(),
        ensures
            m == self.micros(),
            Timestamp::at_micros(m) == *self,
    {
        let wide: i128 = (self.secs as i128) * 1_000_000 + ((self.nanos / 1000) as i128);
        wide as i64
    }

    /// Whether `chrono` can show this instant as a date and a time of day.
    pub fn on_calendar(&self) -> (r: bool)
        ensures
            r == calendar_has(self.secs, self.nanos),
    {
        utc_exists(self.secs, self.nanos)
    }
}

/// Splitting a count and putting it together again gives the count back.
pub proof fn lemma_micros_round_trip(micros: i64)
    ensures
        Timestamp::at_micros(micros).wf(),
        Timestamp::at_micros(micros).micros() == micros,
{
}

} // verus!
