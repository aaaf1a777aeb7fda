//! Moments of client activity, as seconds and nanoseconds of UTC.

use chrono::{DateTime, Duration, Timelike, Utc};
use vstd::prelude::*;

verus! {

/// First second that the calendar can represent: January 1, 262144 BCE.
pub const MIN_SECS: i64 = -8_334_601_228_800;

/// Last second that the calendar can represent: December 31, 262142 CE.
pub const MAX_SECS: i64 = 8_210_266_876_799;

/// Bound on the nanosecond part. Values from one second's worth on lie inside a leap second.
pub const NANOS_BOUND: u32 = 2_000_000_000;

/// A moment in UTC: whole seconds since January 1, 1970 0:00 and the nanoseconds after them.
#[derive(Clone, Copy, Debug)]
pub struct Timestamp {
    pub secs: i64,
    pub nanos: u32,
}

impl View for Timestamp {
    type V = (int, int);

    open spec fn view(&self) -> (int, int) {
        (self.secs as int, self.nanos as int)
    }
}

/// Whether the calendar can represent `t`.
pub open spec fn representable(t: (int, int)) -> bool {
    MIN_SECS <= t.0 <= MAX_SECS && 0 <= t.1 < NANOS_BOUND
}

/// Whether `a` comes before `b`: seconds decide, nanoseconds break a tie.
pub open spec fn earlier(a: (int, int), b: (int, int)) -> bool {
    a.0 < b.0 || (a.0 == b.0 && a.1 < b.1)
}

/// The moment `millis` milliseconds after `t`, for less than a second. A leap second, whose
/// nanosecond part counts on past one second, is left at its own end.
pub open spec fn delayed(t: (int, int), millis: int) -> (int, int) {
    let end: int = if t.1 >= 1_000_000_000 { 2_000_000_000 } else { 1_000_000_000 };
    let nanos = t.1 + millis * 1_000_000;
    if nanos < end {
        (t.0, nanos)
    } else {
        (t.0 + 1, nanos - end)
    }
}

/// Adds milliseconds to a moment by `chrono`'s `DateTime<Utc> + Duration`.
///
/// Trusted: the sum of a representable moment and less than a second is the moment that
/// `delayed` names. The addition panics past the calendar's last second, so such sums are
/// excluded.
#[verifier::external_body]
fn add_milliseconds(secs: i64, nanos: u32, millis: i64) -> (sum: (i64, u32))
    requires
        representable((secs as int, nanos as int)),
        0 <= millis < 1000,
        representable(delayed((secs as int, nanos as int), millis as int)),
    ensures
        (sum.0 as int, sum.1 as int) == delayed((secs as int, nanos as int), millis as int),
{
    let second: DateTime<Utc> = DateTime::from_timestamp(secs, 0).unwrap();
    let moment = second.naive_utc().with_nanosecond(nanos).unwrap().and_utc();
    let sum = moment + Duration::milliseconds(millis);
    (sum.timestamp(), sum.timestamp_subsec_nanos())
}

impl Timestamp {
    /// The moment `millis` milliseconds later.
    pub fn after_millis(&self, millis: i64) -> (later: Timestamp)
        requires
            representable(self@),
            0 <= millis < 1000,
            representable(delayed(self@, millis as int)),
        ensures
            later@ == delayed(self@, millis as int),
    {
        let (secs, nanos) = add_milliseconds(self.secs, self.nanos, millis);
        Timestamp { secs, nanos }
    }

    /// Whether `after_millis` can be asked for `millis`: both this moment and the later one are
    /// representable.
    pub fn has_after_millis(&self, millis: i64) -> (yes: bool)
        requires
            0 <= millis < 1000,
        ensures
            yes == (representable(self@) && representable(delayed(self@, millis as int))),
    {
        if self.secs < MIN_SECS || self.secs > MAX_SECS || self.nanos >= NANOS_BOUND {
            return false;
        }
        let end: i64 = if self.nanos >= 1_000_000_000 { 2_000_000_000 } else { 1_000_000_000 };
        self.secs < MAX_SECS || (self.nanos as i64) + millis * 1_000_000 < end
    }

    /// Whether this moment comes before `other`.
    pub fn is_earlier_than(&self, other: &Timestamp) -> (yes: bool)
        ensures
            yes == earlier(self@, other@),
            yes == (self.secs < other.secs || (self.secs == other.secs && self.nanos
                < other.nanos)),
    {
        self.secs < other.secs || (self.secs == other.secs && self.nanos < other.nanos)
    }
}

} // verus!
