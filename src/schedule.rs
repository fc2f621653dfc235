use vstd::prelude::*;
use crate::state::Cadence;

verus! {

/// Seconds in a day.
pub const DAY: i64 = 86400;

/// Seconds in a week.
pub const WEEK: i64 = 604800;

/// Seconds between two runs of the list generator.
pub const SIX_HOURS: i64 = 21600;

/// Upper bound of the jitter added to the list generator's period, in seconds.
pub const LIST_JITTER: i64 = 600;

/// Last second of the year 9999: the latest Unix time the calendar code handles.
pub const MAX_UNIX_SECONDS: i64 = 253402300799;

/// A Unix time, in seconds, that the calendar code can represent.
pub open spec fn valid_instant(t: i64) -> bool {
    0 <= t <= MAX_UNIX_SECONDS
}

/// The first local midnight strictly after `now`, as a Unix time, for a time
/// zone that is `offset` seconds east of UTC.
pub open spec fn next_local_midnight(now: int, offset: int) -> int {
    ((now + offset) / (DAY as int) + 1) * (DAY as int) - offset
}

/// Relies on `fastrand::i64` over an inclusive range: a value within it.
#[verifier::external_body]
fn random_between(lo: i64, hi: i64) -> (r: i64)
    requires
        lo <= hi,
    ensures
        lo <= r <= hi,
{
    fastrand::i64(lo..=hi)
}

/// An offset from UTC, in seconds east, that a time zone can have.
pub open spec fn valid_offset(offset: i32) -> bool {
    -86400 < offset < 86400
}

/// `r` lies after `now` and before the first local midnight after `now` in a
/// zone `offset` seconds east of UTC; when that midnight is one second away,
/// no whole second lies strictly between, and `r` is that midnight.
pub open spec fn due_today(r: i64, now: i64, offset: i32) -> bool {
    let midnight = next_local_midnight(now as int, offset as int);
    now < r && (r < midnight || (r == now + 1 && r == midnight))
}

/// The first local midnight after `now` in a zone `offset` seconds east of UTC.
pub fn local_midnight_after(now: i64, offset: i32) -> (r: i64)
    requires
        valid_instant(now),
        -86400 < offset < 86400,
    ensures
        r == next_local_midnight(now as int, offset as int),
        now < r <= now + DAY,
{
    let local: i64 = now + offset as i64;
    let days: i64 = if local >= 0 {
        local / DAY
    } else {
        -1
    };
    assert(days == local / DAY) by {
        if local < 0 {
            assert(-DAY < local);
        }
    }
    let r: i64 = (days + 1) * DAY - offset as i64;
    assert(days * DAY <= local < days * DAY + DAY) by (nonlinear_arith)
        requires
            days == local / DAY,
    ;
    r
}

/// A random instant strictly after `now` and strictly before the end of the
/// current local day, in a zone `offset` seconds east of UTC.
pub fn rand_datetime_today(now: i64, offset: i32) -> (r: i64)
    requires
        valid_instant(now),
        valid_offset(offset),
    ensures
        due_today(r, now, offset),
        r <= now + DAY,
{
    let midnight = local_midnight_after(now, offset);
    if midnight - now >= 2 {
        random_between(now + 1, midnight - 1)
    } else {
        midnight
    }
}

/// A random instant within the 24 hours after `now`.
pub fn rand_datetime_daily(now: i64) -> (r: i64)
    requires
        valid_instant(now),
    ensures
        now < r <= now + DAY,
{
    random_between(now + 1, now + DAY)
}

/// A random instant within the 7 days after `now`.
pub fn rand_datetime_weekly(now: i64) -> (r: i64)
    requires
        valid_instant(now),
    ensures
        now < r <= now + WEEK,
{
    random_between(now + 1, now + WEEK)
}

/// About six hours after `now`, with a jitter of at most ten minutes: the
/// next time the list generator runs.
pub fn in_about_six_hours(now: i64) -> (r: i64)
    requires
        valid_instant(now),
    ensures
        now + SIX_HOURS <= r <= now + SIX_HOURS + LIST_JITTER,
{
    random_between(now + SIX_HOURS, now + SIX_HOURS + LIST_JITTER)
}

/// A random instant after `now` drawn from a daily or weekly cadence.
pub fn next_check_after(now: i64, cadence: Cadence) -> (r: i64)
    requires
        valid_instant(now),
        cadence != Cadence::Today,
    ensures
        now < r,
        r <= now + cadence_span(cadence),
{
    match cadence {
        Cadence::Weekly => rand_datetime_weekly(now),
        _ => rand_datetime_daily(now),
    }
}

/// The longest time, in seconds, that a draw from `cadence` lies ahead.
pub open spec fn cadence_span(cadence: Cadence) -> int {
    match cadence {
        Cadence::Today => DAY as int,
        Cadence::Daily => DAY as int,
        Cadence::Weekly => WEEK as int,
    }
}

} // verus!
