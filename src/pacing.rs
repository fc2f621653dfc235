use vstd::prelude::*;

verus! {

/// Longest single sleep of the coordinator, in milliseconds, so that a
/// shutdown request is noticed quickly.
pub const MAX_SLEEP_MILLIS: i64 = 3000;

/// Pause before a check that is already overdue, in milliseconds.
pub const OVERDUE_WAIT_MILLIS: i64 = 100;

/// What the coordinator does in one iteration.
#[derive(PartialEq, Eq, Structural, Debug, Clone, Copy)]
pub enum Pace {
    /// Sleep `MAX_SLEEP_MILLIS` and look again.
    Idle,
    /// Sleep this many milliseconds, then reschedule and dispatch the instance.
    DispatchAfter(i64),
}

/// Milliseconds from `now_ms` until the Unix time `scheduled` (in seconds),
/// or the overdue pause when that time has passed.
pub open spec fn spec_wait(scheduled: i64, now_ms: i64) -> int {
    let w = scheduled * 1000 - now_ms;
    if w < 0 {
        OVERDUE_WAIT_MILLIS as int
    } else {
        w
    }
}

/// The plan for an instance due at `scheduled`, at `now_ms`.
pub open spec fn spec_plan(scheduled: i64, now_ms: i64) -> Pace {
    let w = spec_wait(scheduled, now_ms);
    if w > MAX_SLEEP_MILLIS {
        Pace::Idle
    } else {
        Pace::DispatchAfter(w as i64)
    }
}

/// Decides whether to dispatch the instance that is due first, and after how
/// long a sleep; with no instance the coordinator idles.
pub fn plan_dispatch(scheduled: Option<i64>, now_ms: i64) -> (r: Pace)
    ensures
        scheduled is None ==> r == Pace::Idle,
        scheduled matches Some(t) ==> r == spec_plan(t, now_ms),
        r matches Pace::DispatchAfter(w) ==> 0 <= w <= MAX_SLEEP_MILLIS,
{
    match scheduled {
        None => Pace::Idle,
        Some(t) => {
            let w: i128 = (t as i128) * 1000 - (now_ms as i128);
            let w: i128 = if w < 0 {
                OVERDUE_WAIT_MILLIS as i128
            } else {
                w
            };
            if w > MAX_SLEEP_MILLIS as i128 {
                Pace::Idle
            } else {
                Pace::DispatchAfter(w as i64)
            }
        },
    }
}

/// Whether the list generator is due: its time, `due`, has passed at `now`.
pub fn list_generation_due(due: i64, now: i64) -> (r: bool)
    ensures
        r == (due < now),
{
    due < now
}

} // verus!
