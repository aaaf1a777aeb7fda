//! How moments are ordered and what a delay does to them.

use crate::timestamp::{delayed, earlier, representable, Timestamp};
use vstd::prelude::*;

verus! {

/// Whether the moment lies outside of leap seconds.
pub open spec fn is_ordinary(moment: (int, int)) -> bool {
    0 <= moment.1 < 1_000_000_000
}

/// Nanoseconds since January 1, 1970 0:00, for a moment outside of leap seconds.
pub open spec fn nanos_since_epoch(moment: (int, int)) -> int {
    moment.0 * 1_000_000_000 + moment.1
}

/// Whether `b` is `nanos` nanoseconds after `a`, for less than a second. From an ordinary moment
/// the clock goes on to an ordinary moment. In a leap second it goes on within that second, or to
/// the start of the next one when that second, which counts to two, is over.
pub open spec fn is_later_by(a: (int, int), b: (int, int), nanos: int) -> bool {
    if is_ordinary(a) {
        is_ordinary(b) && nanos_since_epoch(b) - nanos_since_epoch(a) == nanos
    } else {
        ||| a.0 == b.0 && b.1 - a.1 == nanos && b.1 < 2_000_000_000
        ||| a.0 + 1 == b.0 && is_ordinary(b) && 2_000_000_000 - a.1 + b.1 == nanos
    }
}

/// Outside of leap seconds the earlier moment is the one with fewer nanoseconds since 1970. A leap
/// second comes after the ordinary moments of its second and before all of the next second.
pub proof fn law_order_follows_the_clock(a: (int, int), b: (int, int))
    requires
        0 <= a.1 < 2_000_000_000,
        0 <= b.1 < 2_000_000_000,
    ensures
        is_ordinary(a) && is_ordinary(b) ==> (earlier(a, b) <==> nanos_since_epoch(a)
            < nanos_since_epoch(b)),
        is_ordinary(a) && !is_ordinary(b) ==> (earlier(a, b) <==> a.0 <= b.0),
        !is_ordinary(a) && is_ordinary(b) ==> (earlier(a, b) <==> a.0 < b.0),
        !is_ordinary(a) && !is_ordinary(b) ==> (earlier(a, b) <==> a.0 < b.0 || (a.0 == b.0 && a.1
            < b.1)),
{
}

/// Of two different moments exactly one is the earlier, no moment is earlier than itself, and what
/// is earlier than an earlier moment is earlier too.
pub proof fn law_order_is_total(a: (int, int), b: (int, int), c: (int, int))
    ensures
        earlier(a, b) || earlier(b, a) || a == b,
        !(earlier(a, b) && earlier(b, a)),
        !earlier(a, a),
        earlier(a, b) && earlier(b, c) ==> earlier(a, c),
{
}

/// A delay of so many milliseconds is one of a million times as many nanoseconds, and there is one
/// moment only that is so much later.
pub proof fn law_delay_passes_time(moment: (int, int), millis: int, later: (int, int))
    requires
        0 <= moment.1,
        0 <= millis < 1000,
    ensures
        moment.1 < 2_000_000_000 ==> is_later_by(
            moment,
            delayed(moment, millis),
            millis * 1_000_000,
        ),
        is_later_by(moment, later, millis * 1_000_000) ==> later == delayed(moment, millis),
{
}

/// A delay keeps the order: of two moments outside of leap seconds the earlier one stays the
/// earlier.
pub proof fn law_delay_keeps_order(a: (int, int), b: (int, int), millis: int)
    requires
        is_ordinary(a),
        is_ordinary(b),
        0 <= millis < 1000,
    ensures
        earlier(delayed(a, millis), delayed(b, millis)) <==> earlier(a, b),
{
    law_delay_passes_time(a, millis, a);
    law_delay_passes_time(b, millis, b);
}

/// The calendar reaches from the start of the year -262143 to the end of the year 262142, leap
/// seconds included.
pub proof fn law_calendar_has_ends(moment: (int, int))
    ensures
        representable(moment) <==> -8_334_601_228_800 <= moment.0 < 8_210_266_876_800 && 0
            <= moment.1 < 2_000_000_000,
{
}

/// Two timestamps are the same moment only if their seconds and their nanoseconds agree.
pub proof fn law_moment_tells_all(a: Timestamp, b: Timestamp)
    ensures
        a@ == b@ <==> a.secs == b.secs && a.nanos == b.nanos,
        a@.0 == a.secs && a@.1 == a.nanos,
{
}

} // verus!
