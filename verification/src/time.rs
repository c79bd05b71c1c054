//! Instants and spans of time as exact integers.
//!
//! Both are counted in nanoseconds and held in an `i128`, so that every instant a
//! calendar library can name, and every multiple of a span that a 32-bit counter can
//! ask for, is a value of the type.

use vstd::prelude::*;

verus! {

pub const NANOS_PER_SECOND: i128 = 1_000_000_000;

pub const NANOS_PER_MILLI: i128 = 1_000_000;

/// An instant on the UTC time line: nanoseconds since 1970-01-01T00:00:00Z,
/// negative before it.
#[derive(Clone, Copy, Debug, PartialEq, Eq, Structural, PartialOrd, Ord, Hash)]
pub struct Timestamp {
    pub nanos: i128,
}

/// A signed length of time in nanoseconds.
#[derive(Clone, Copy, Debug, PartialEq, Eq, Structural, PartialOrd, Ord, Hash)]
pub struct TimeSpan {
    pub nanos: i128,
}

impl Timestamp {
    /// The instant that lies `secs` whole seconds and `subsec_nanos` nanoseconds
    /// after the epoch.
    pub open spec fn of_parts(secs: int, subsec_nanos: int) -> Timestamp {
        Timestamp { nanos: (secs * 1_000_000_000 + subsec_nanos) as i128 }
    }

    /// Whole seconds since the epoch, rounded towards the past.
    pub open spec fn seconds(self) -> int {
        self.nanos as int / 1_000_000_000
    }

    /// Nanoseconds since the last whole second: `0 <= .. < 1_000_000_000`.
    pub open spec fn subsec_nanos(self) -> int {
        self.nanos as int % 1_000_000_000
    }

    pub fn from_nanos(nanos: i128) -> (r: Timestamp)
        ensures
            r.nanos == nanos,
    {
        Timestamp { nanos }
    }

    pub fn from_millis(millis: i64) -> (r: Timestamp)
        ensures
            r.nanos == millis * 1_000_000,
    {
        let wide: i128 = millis as i128;
        Timestamp { nanos: wide * NANOS_PER_MILLI }
    }

    /// Joins a count of whole seconds and the nanoseconds after it.
    pub fn from_parts(secs: i64, subsec_nanos: u32) -> (r: Timestamp)
        ensures
            r == Timestamp::of_parts(secs as int, subsec_nanos as int),
            r.nanos == secs * 1_000_000_000 + subsec_nanos,
    {
        let wide: i128 = secs as i128;
        let rest: i128 = subsec_nanos as i128;
        Timestamp { nanos: wide * NANOS_PER_SECOND + rest }
    }

    /// Splits the instant into whole seconds and the nanoseconds after them.
    /// `None` exactly when the seconds do not fit in an `i64`.
    pub fn to_parts(&self) -> (r: Option<(i64, u32)>)
        ensures
            match r {
                Some((secs, subsec)) => {
                    &&& secs == self.seconds()
                    &&& subsec == self.subsec_nanos()
                    &&& subsec < 1_000_000_000
                    &&& Timestamp::of_parts(secs as int, subsec as int) == *self
                },
                None => self.seconds() < i64::MIN || self.seconds() > i64::MAX,
            },
    {
        let secs: i128 = match self.nanos.checked_div_euclid(NANOS_PER_SECOND) {
            Some(q) => q,
            None => { return None; },
        };
        let rest: i128 = match self.nanos.checked_rem_euclid(NANOS_PER_SECOND) {
            Some(m) => m,
            None => { return None; },
        };
        if secs < i64::MIN as i128 || secs > i64::MAX as i128 {
            return None;
        }
        Some((secs as i64, rest as u32))
    }
}

impl TimeSpan {
    pub fn from_nanos(nanos: i128) -> (r: TimeSpan)
        ensures
            r.nanos == nanos,
    {
        TimeSpan { nanos }
    }

    pub fn from_millis(millis: i64) -> (r: TimeSpan)
        ensures
            r.nanos == millis * 1_000_000,
    {
        let wide: i128 = millis as i128;
        TimeSpan { nanos: wide * NANOS_PER_MILLI }
    }

    pub fn from_secs(secs: i64) -> (r: TimeSpan)
        ensures
            r.nanos == secs * 1_000_000_000,
    {
        let wide: i128 = secs as i128;
        TimeSpan { nanos: wide * NANOS_PER_SECOND }
    }
}

} // verus!
