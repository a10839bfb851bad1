//! Moments and lengths of time, held as whole seconds and nanoseconds.

use vstd::prelude::*;

verus! {

/// Nanoseconds in one second.
pub const NANOS_PER_SEC: u32 = 1_000_000_000;

/// The first second of the year 0000, counted from 1970-01-01T00:00:00Z.
pub const EARLIEST_SEC: i64 = -62_167_219_200;

/// The last second of the year 9999, counted from 1970-01-01T00:00:00Z.
pub const LATEST_SEC: i64 = 253_402_300_799;

/// The earliest moment a `Timestamp` can hold, in nanoseconds since 1970.
pub open spec fn earliest() -> int {
    EARLIEST_SEC * NANOS_PER_SEC
}

/// The latest moment a `Timestamp` can hold, in nanoseconds since 1970.
pub open spec fn latest() -> int {
    LATEST_SEC * NANOS_PER_SEC + (NANOS_PER_SEC - 1)
}

/// The longest `Interval`, in nanoseconds.
pub open spec fn longest() -> nat {
    (u64::MAX * NANOS_PER_SEC + (NANOS_PER_SEC - 1)) as nat
}

/// `t`, moved into the closed range from `low` to `high`.
pub open spec fn clamp(t: int, low: int, high: int) -> int {
    if t < low {
        low
    } else if t > high {
        high
    } else {
        t
    }
}

/// The text that writes the moment `secs` seconds and `nanos` nanoseconds
/// after 1970-01-01T00:00:00Z as an RFC 3339 date and time in UTC.
pub uninterp spec fn rfc3339_text(secs: int, nanos: int) -> Seq<char>;

/// The RFC 3339 text of the moment `t` nanoseconds after 1970-01-01T00:00:00Z.
pub open spec fn stamp_text(t: int) -> Seq<char> {
    rfc3339_text(t / (NANOS_PER_SEC as int), t % (NANOS_PER_SEC as int))
}

/// A length of time. Its view is its length in nanoseconds.
#[derive(Clone, Copy, Debug, PartialEq, Eq)]
pub struct Interval {
    secs: u64,
    nanos: u32,
}

/// A moment between the years 0000 and 9999, the moments that RFC 3339 can
/// write. Its view is the number of nanoseconds since 1970-01-01T00:00:00Z.
#[derive(Clone, Copy, Debug, PartialEq, Eq)]
pub struct Timestamp {
    secs: i64,
    nanos: u32,
}

impl View for Interval {
    type V = nat;

    closed spec fn view(&self) -> nat {
        (self.secs * NANOS_PER_SEC + self.nanos) as nat
    }
}

impl View for Timestamp {
    type V = int;

    closed spec fn view(&self) -> int {
        self.secs * NANOS_PER_SEC + self.nanos
    }
}

/// Reads the system clock with `chrono::Utc::now` and hands back the reading's
/// `timestamp` and `timestamp_subsec_nanos`. Nothing is claimed of the values:
/// they are whatever the clock says. `Utc::now` stops the program if the
/// system clock stands before 1970.
#[verifier::external_body]
fn clock_now() -> (reading: (i64, u32)) {
    let now = chrono::Utc::now();
    (now.timestamp(), now.timestamp_subsec_nanos())
}

/// Writes a moment with `chrono::DateTime::from_timestamp` and
/// `DateTime::to_rfc3339`. Between the years 0000 and 9999, with less than a
/// second of nanoseconds, `from_timestamp` yields a date; the text is the
/// one that `rfc3339_text` names.
#[verifier::external_body]
fn rfc3339(secs: i64, nanos: u32) -> (text: String)
    requires
        EARLIEST_SEC <= secs <= LATEST_SEC,
        nanos < NANOS_PER_SEC,
    ensures
        text@ == rfc3339_text(secs as int, nanos as int),
{
    chrono::DateTime::from_timestamp(secs, nanos).unwrap().to_rfc3339()
}

impl Interval {
    #[verifier::type_invariant]
    spec fn within_second(self) -> bool {
        self.nanos < NANOS_PER_SEC
    }

    /// The interval of `secs` seconds and `nanos` nanoseconds, or the longest
    /// interval if that is shorter.
    pub fn new(secs: u64, nanos: u32) -> (d: Interval)
        ensures
            d@ == if secs * NANOS_PER_SEC + nanos <= longest() {
                (secs * NANOS_PER_SEC + nanos) as nat
            } else {
                longest()
            },
    {
        let carry: u64 = (nanos / NANOS_PER_SEC) as u64;
        let rest: u32 = nanos % NANOS_PER_SEC;
        if secs <= u64::MAX - carry {
            Interval { secs: secs + carry, nanos: rest }
        } else {
            Interval { secs: u64::MAX, nanos: NANOS_PER_SEC - 1 }
        }
    }

    /// The interval of no length.
    pub fn zero() -> (d: Interval)
        ensures
            d@ == 0,
    {
        Interval { secs: 0, nanos: 0 }
    }

    /// The time from `start` to `end`; none if `end` is the earlier.
    pub fn between(start: Timestamp, end: Timestamp) -> (d: Interval)
        ensures
            d@ == if end@ >= start@ {
                end@ - start@
            } else {
                0
            },
    {
        proof {
            use_type_invariant(&start);
            use_type_invariant(&end);
        }
        if end.secs < start.secs || (end.secs == start.secs && end.nanos < start.nanos) {
            Interval { secs: 0, nanos: 0 }
        } else if end.nanos >= start.nanos {
            Interval { secs: (end.secs - start.secs) as u64, nanos: end.nanos - start.nanos }
        } else {
            Interval {
                secs: (end.secs - start.secs - 1) as u64,
                nanos: end.nanos + NANOS_PER_SEC - start.nanos,
            }
        }
    }

    /// Whole seconds.
    pub fn as_secs(&self) -> (secs: u64)
        ensures
            secs == self@ / (NANOS_PER_SEC as nat),
    {
        proof {
            use_type_invariant(self);
        }
        self.secs
    }

    /// What is left beyond the whole seconds, in nanoseconds.
    pub fn subsec_nanos(&self) -> (nanos: u32)
        ensures
            nanos == self@ % (NANOS_PER_SEC as nat),
            nanos < NANOS_PER_SEC,
    {
        proof {
            use_type_invariant(self);
        }
        self.nanos
    }

    /// Whether this interval is longer than `other`.
    pub fn exceeds(&self, other: &Interval) -> (longer: bool)
        ensures
            longer == (self@ > other@),
    {
        proof {
            use_type_invariant(self);
            use_type_invariant(other);
        }
        self.secs > other.secs || (self.secs == other.secs && self.nanos > other.nanos)
    }

    /// The longer of two intervals.
    pub fn longer(self, other: Interval) -> (d: Interval)
        ensures
            d@ == if self@ >= other@ {
                self@
            } else {
                other@
            },
    {
        if other.exceeds(&self) {
            other
        } else {
            self
        }
    }
}

impl Timestamp {
    #[verifier::type_invariant]
    spec fn in_range(self) -> bool {
        EARLIEST_SEC <= self.secs <= LATEST_SEC && self.nanos < NANOS_PER_SEC
    }

    /// The moment `secs` seconds and `nanos` nanoseconds after
    /// 1970-01-01T00:00:00Z, moved into the years 0000 to 9999.
    pub fn new(secs: i64, nanos: u32) -> (t: Timestamp)
        ensures
            t@ == clamp(secs * NANOS_PER_SEC + nanos, earliest(), latest()),
    {
        let carry: i64 = (nanos / NANOS_PER_SEC) as i64;
        let rest: u32 = nanos % NANOS_PER_SEC;
        if secs > LATEST_SEC {
            Timestamp { secs: LATEST_SEC, nanos: NANOS_PER_SEC - 1 }
        } else if secs < EARLIEST_SEC - carry {
            Timestamp { secs: EARLIEST_SEC, nanos: 0 }
        } else if secs + carry > LATEST_SEC {
            Timestamp { secs: LATEST_SEC, nanos: NANOS_PER_SEC - 1 }
        } else {
            Timestamp { secs: secs + carry, nanos: rest }
        }
    }

    /// The system clock's reading, moved into the years 0000 to 9999.
    pub fn now() -> (t: Timestamp)
        ensures
            earliest() <= t@ <= latest(),
    {
        let (secs, nanos) = clock_now();
        Timestamp::new(secs, nanos)
    }

    /// Whole seconds since 1970-01-01T00:00:00Z, rounded down.
    pub fn secs(&self) -> (secs: i64)
        ensures
            secs == self@ / (NANOS_PER_SEC as int),
            earliest() <= self@ <= latest(),
    {
        proof {
            use_type_invariant(self);
        }
        self.secs
    }

    /// Nanoseconds since the last whole second.
    pub fn subsec_nanos(&self) -> (nanos: u32)
        ensures
            nanos == self@ % (NANOS_PER_SEC as int),
            nanos < NANOS_PER_SEC,
    {
        proof {
            use_type_invariant(self);
        }
        self.nanos
    }

    /// The moment as an RFC 3339 date and time in UTC.
    pub fn to_rfc3339(&self) -> (text: String)
        ensures
            text@ == stamp_text(self@),
    {
        proof {
            use_type_invariant(self);
        }
        rfc3339(self.secs, self.nanos)
    }
}

} // verus!
