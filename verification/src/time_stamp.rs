use std::cmp::Ordering;
use vstd::prelude::*;

verus! {

/// A point in time, shown in a fixed UTC offset: the seconds since the Unix
/// epoch, the nanoseconds within that second, and the offset in seconds.
/// Two time stamps are compared by the instant alone.
#[derive(Debug, Clone, Copy)]
pub struct TimeStamp {
    pub secs: i64,
    pub nanos: u32,
    pub offset_secs: i32,
}

impl Default for TimeStamp {
    /// The Unix epoch in UTC.
    fn default() -> (r: Self)
        ensures
            r.secs == 0 && r.nanos == 0 && r.offset_secs == 0,
    {
        TimeStamp { secs: 0, nanos: 0, offset_secs: 0 }
    }
}

impl PartialEq for TimeStamp {
    fn eq(&self, other: &Self) -> (r: bool) {
        self.secs == other.secs && self.nanos == other.nanos
    }
}

impl vstd::std_specs::cmp::PartialEqSpecImpl for TimeStamp {
    open spec fn obeys_eq_spec() -> bool {
        true
    }

    open spec fn eq_spec(&self, other: &Self) -> bool {
        self.secs == other.secs && self.nanos == other.nanos
    }
}

/// The order of two instants, seconds first, then nanoseconds.
pub open spec fn time_order(a: &TimeStamp, b: &TimeStamp) -> Option<Ordering> {
    if a.secs < b.secs || (a.secs == b.secs && a.nanos < b.nanos) {
        Some(Ordering::Less)
    } else if a.secs == b.secs && a.nanos == b.nanos {
        Some(Ordering::Equal)
    } else {
        Some(Ordering::Greater)
    }
}

impl PartialOrd for TimeStamp {
    fn partial_cmp(&self, other: &Self) -> (r: Option<Ordering>) {
        if self.secs < other.secs || (self.secs == other.secs && self.nanos < other.nanos) {
            Some(Ordering::Less)
        } else if self.secs == other.secs && self.nanos == other.nanos {
            Some(Ordering::Equal)
        } else {
            Some(Ordering::Greater)
        }
    }
}

impl vstd::std_specs::cmp::PartialOrdSpecImpl for TimeStamp {
    open spec fn obeys_partial_cmp_spec() -> bool {
        true
    }

    open spec fn partial_cmp_spec(&self, other: &Self) -> Option<Ordering> {
        time_order(self, other)
    }
}

/// `a` is not later than `b`.
pub open spec fn not_after(a: TimeStamp, b: TimeStamp) -> bool {
    a.secs < b.secs || (a.secs == b.secs && a.nanos <= b.nanos)
}

impl TimeStamp {
    /// Whether this instant is not later than `other`.
    pub fn not_after(&self, other: &TimeStamp) -> (r: bool)
        ensures
            r == not_after(*self, *other),
    {
        self.secs < other.secs || (self.secs == other.secs && self.nanos <= other.nanos)
    }
}

/// A time stamp as it travels between server and client: the milliseconds
/// since the epoch.
#[derive(Debug, Clone, Copy)]
pub struct TimeStampCoder(pub i64);

/// The offset of UTC+8, in which time stamps are shown.
pub const UTC_8_SECS: i32 = 8 * 3600;

/// The milliseconds since the epoch of a time stamp.
pub open spec fn millis_of(t: TimeStamp) -> int {
    t.secs * 1000 + t.nanos / 1_000_000
}

impl TimeStampCoder {
    /// The coder of a time stamp, when its milliseconds fit in an `i64`.
    pub fn from_time(t: TimeStamp) -> (r: Option<TimeStampCoder>)
        ensures
            r is Some <==> i64::MIN <= millis_of(t) <= i64::MAX,
            r matches Some(c) ==> c.0 == millis_of(t),
    {
        let wide: i128 = t.secs as i128 * 1000 + (t.nanos / 1_000_000) as i128;
        if wide < i64::MIN as i128 || wide > i64::MAX as i128 {
            None
        } else {
            Some(TimeStampCoder(wide as i64))
        }
    }

    /// The time stamp the coder stands for, shown in UTC+8.
    pub fn to_time(&self) -> (r: TimeStamp)
        ensures
            r == time_of_coder(*self),
    {
        let m = self.0;
        let mut q: i64 = m / 1000;
        let mut rem: i64 = m % 1000;
        if rem < 0 {
            q = q - 1;
            rem = rem + 1000;
        }
        proof {
            assert(q == m as int / 1000 && rem == m as int % 1000);
        }
        let nanos: u32 = (rem as u32) * 1_000_000;
        TimeStamp { secs: q, nanos, offset_secs: UTC_8_SECS }
    }
}

/// The time stamp a coder stands for: the whole seconds and the rest of the
/// milliseconds, shown in UTC+8.
pub open spec fn time_of_coder(c: TimeStampCoder) -> TimeStamp {
    TimeStamp {
        secs: (c.0 as int / 1000) as i64,
        nanos: ((c.0 as int % 1000) * 1_000_000) as u32,
        offset_secs: UTC_8_SECS,
    }
}

/// Decoding a coder and coding the time stamp again gives the same coder.
pub proof fn law_coder_roundtrip(c: TimeStampCoder)
    ensures
        millis_of(time_of_coder(c)) == c.0,
        i64::MIN <= millis_of(time_of_coder(c)) <= i64::MAX,
{
}

} // verus!
