use vstd::prelude::*;
use crate::schedule::WEEK;
use crate::state::{Cadence, InstanceState};

verus! {

/// Counter value past which a run of identical verdicts is confirmed.
pub const CONFIRMATION_COUNT: u64 = 7;

/// State-specific data kept beside an instance while it is Dying, Moving or Moved.
#[derive(PartialEq, Eq, Structural, Debug, Clone, Copy)]
pub enum SideData {
    /// No side row: the instance is Discovered, Alive or Dead.
    Empty,
    /// Consecutive failures since `since`.
    Dying { since: i64, failed_checks_count: u64 },
    /// Consecutive redirects to instance `moving_to` since `since`.
    Moving { since: i64, redirects_count: u64, moving_to: u64 },
    /// Confirmed redirect target.
    Moved { moved_to: u64 },
}

/// The state of one instance together with its side data.
#[derive(PartialEq, Eq, Structural, Debug, Clone, Copy)]
pub struct Lifecycle {
    pub state: InstanceState,
    pub side: SideData,
}

/// Outcome of one probe.
#[derive(PartialEq, Eq, Structural, Debug, Clone, Copy)]
pub enum Verdict {
    /// The instance answered.
    Alive,
    /// The instance did not answer.
    Dead,
    /// The instance redirects to the instance with the given id.
    Moved(u64),
}

/// A new lifecycle and the cadence of the next check.
#[derive(PartialEq, Eq, Structural, Debug, Clone, Copy)]
pub struct Transition {
    pub lifecycle: Lifecycle,
    pub cadence: Cadence,
}

impl Lifecycle {
    /// The side data lives in the table of the state, and counters are at least one.
    pub open spec fn wf(self) -> bool {
        match self.state {
            InstanceState::Discovered | InstanceState::Alive | InstanceState::Dead => self.side
                is Empty,
            InstanceState::Dying => self.side matches SideData::Dying {
                failed_checks_count,
                ..
            } && failed_checks_count >= 1,
            InstanceState::Moving => self.side matches SideData::Moving {
                redirects_count,
                ..
            } && redirects_count >= 1,
            InstanceState::Moved => self.side is Moved,
        }
    }

    /// Whether the side data matches the state.
    pub fn is_wf(&self) -> (r: bool)
        ensures
            r == self.wf(),
    {
        match self.state {
            InstanceState::Discovered | InstanceState::Alive | InstanceState::Dead => {
                matches!(self.side, SideData::Empty)
            },
            InstanceState::Dying => match self.side {
                SideData::Dying { failed_checks_count, .. } => failed_checks_count >= 1,
                _ => false,
            },
            InstanceState::Moving => match self.side {
                SideData::Moving { redirects_count, .. } => redirects_count >= 1,
                _ => false,
            },
            InstanceState::Moved => matches!(self.side, SideData::Moved { .. }),
        }
    }

    /// A freshly discovered instance.
    pub fn discovered() -> (r: Lifecycle)
        ensures
            r.wf(),
            r.state == InstanceState::Discovered,
            r.side == SideData::Empty,
    {
        Lifecycle { state: InstanceState::Discovered, side: SideData::Empty }
    }
}

/// Adds one to a counter, stopping at the largest value.
pub open spec fn bump(c: u64) -> u64 {
    if c < u64::MAX {
        (c + 1) as u64
    } else {
        c
    }
}

/// Whether a run that started at `since` and reached `count` is confirmed at `now`:
/// more than seven identical verdicts, the run having started less than a week ago.
pub open spec fn confirmed(count: u64, since: i64, now: i64) -> bool {
    count > CONFIRMATION_COUNT && since > now - WEEK
}

/// A new failure run, started at `now`.
pub open spec fn start_dying(now: i64) -> Transition {
    Transition {
        lifecycle: Lifecycle {
            state: InstanceState::Dying,
            side: SideData::Dying { since: now, failed_checks_count: 1 },
        },
        cadence: Cadence::Daily,
    }
}

/// A new redirect run towards `to`, started at `now`.
pub open spec fn start_moving(to: u64, now: i64) -> Transition {
    Transition {
        lifecycle: Lifecycle {
            state: InstanceState::Moving,
            side: SideData::Moving { since: now, redirects_count: 1, moving_to: to },
        },
        cadence: Cadence::Daily,
    }
}

/// The transition table: the lifecycle and next cadence after `verdict` at `now`.
pub open spec fn spec_next(l: Lifecycle, verdict: Verdict, now: i64) -> Transition {
    match verdict {
        Verdict::Alive => Transition {
            lifecycle: Lifecycle { state: InstanceState::Alive, side: SideData::Empty },
            cadence: Cadence::Daily,
        },
        Verdict::Dead => match l.side {
            SideData::Dying { since, failed_checks_count } => {
                let c = bump(failed_checks_count);
                if confirmed(c, since, now) {
                    Transition {
                        lifecycle: Lifecycle { state: InstanceState::Dead, side: SideData::Empty },
                        cadence: Cadence::Weekly,
                    }
                } else {
                    Transition {
                        lifecycle: Lifecycle {
                            state: InstanceState::Dying,
                            side: SideData::Dying { since, failed_checks_count: c },
                        },
                        cadence: Cadence::Daily,
                    }
                }
            },
            _ => if l.state == InstanceState::Dead {
                Transition { lifecycle: l, cadence: Cadence::Weekly }
            } else {
                start_dying(now)
            },
        },
        Verdict::Moved(to) => match l.side {
            SideData::Moving { since, redirects_count, moving_to } => {
                if moving_to == to {
                    let c = bump(redirects_count);
                    if confirmed(c, since, now) {
                        Transition {
                            lifecycle: Lifecycle {
                                state: InstanceState::Moved,
                                side: SideData::Moved { moved_to: to },
                            },
                            cadence: Cadence::Weekly,
                        }
                    } else {
                        Transition {
                            lifecycle: Lifecycle {
                                state: InstanceState::Moving,
                                side: SideData::Moving { since, redirects_count: c, moving_to },
                            },
                            cadence: Cadence::Daily,
                        }
                    }
                } else {
                    start_moving(to, now)
                }
            },
            _ => if l.state == InstanceState::Moved {
                Transition { lifecycle: l, cadence: Cadence::Weekly }
            } else {
                start_moving(to, now)
            },
        },
    }
}

/// Applies a probe verdict to a lifecycle.
pub fn next(l: Lifecycle, verdict: Verdict, now: i64) -> (r: Transition)
    requires
        l.wf(),
    ensures
        r == spec_next(l, verdict, now),
        r.lifecycle.wf(),
{
    match verdict {
        Verdict::Alive => Transition {
            lifecycle: Lifecycle { state: InstanceState::Alive, side: SideData::Empty },
            cadence: Cadence::Daily,
        },
        Verdict::Dead => match l.side {
            SideData::Dying { since, failed_checks_count } => {
                let c = failed_checks_count.saturating_add(1);
                if is_confirmed(c, since, now) {
                    Transition {
                        lifecycle: Lifecycle { state: InstanceState::Dead, side: SideData::Empty },
                        cadence: Cadence::Weekly,
                    }
                } else {
                    Transition {
                        lifecycle: Lifecycle {
                            state: InstanceState::Dying,
                            side: SideData::Dying { since, failed_checks_count: c },
                        },
                        cadence: Cadence::Daily,
                    }
                }
            },
            _ => {
                if l.state == InstanceState::Dead {
                    Transition { lifecycle: l, cadence: Cadence::Weekly }
                } else {
                    Transition {
                        lifecycle: Lifecycle {
                            state: InstanceState::Dying,
                            side: SideData::Dying { since: now, failed_checks_count: 1 },
                        },
                        cadence: Cadence::Daily,
                    }
                }
            },
        },
        Verdict::Moved(to) => match l.side {
            SideData::Moving { since, redirects_count, moving_to } => {
                if moving_to == to {
                    let c = redirects_count.saturating_add(1);
                    if is_confirmed(c, since, now) {
                        Transition {
                            lifecycle: Lifecycle {
                                state: InstanceState::Moved,
                                side: SideData::Moved { moved_to: to },
                            },
                            cadence: Cadence::Weekly,
                        }
                    } else {
                        Transition {
                            lifecycle: Lifecycle {
                                state: InstanceState::Moving,
                                side: SideData::Moving { since, redirects_count: c, moving_to },
                            },
                            cadence: Cadence::Daily,
                        }
                    }
                } else {
                    Transition {
                        lifecycle: Lifecycle {
                            state: InstanceState::Moving,
                            side: SideData::Moving { since: now, redirects_count: 1, moving_to: to },
                        },
                        cadence: Cadence::Daily,
                    }
                }
            },
            _ => {
                if l.state == InstanceState::Moved {
                    Transition { lifecycle: l, cadence: Cadence::Weekly }
                } else {
                    Transition {
                        lifecycle: Lifecycle {
                            state: InstanceState::Moving,
                            side: SideData::Moving { since: now, redirects_count: 1, moving_to: to },
                        },
                        cadence: Cadence::Daily,
                    }
                }
            },
        },
    }
}

/// Whether a run that reached `count` and started at `since` is confirmed at `now`.
pub fn is_confirmed(count: u64, since: i64, now: i64) -> (r: bool)
    ensures
        r == confirmed(count, since, now),
{
    count > CONFIRMATION_COUNT && (since as i128) > (now as i128) - (WEEK as i128)
}

/// A failure of a Dying instance adds one to its failure count and keeps the
/// start of the run, unless the raised count confirms the run: then the
/// instance is Dead, with no side data, and is checked weekly.
pub proof fn lemma_failures_count_up(l: Lifecycle, now: i64)
    requires
        l.wf(),
        l.side is Dying,
    ensures
        l.side matches SideData::Dying { since, failed_checks_count } ==> {
            let t = spec_next(l, Verdict::Dead, now);
            let c = bump(failed_checks_count);
            &&& failed_checks_count < u64::MAX ==> c > failed_checks_count
            &&& confirmed(c, since, now) ==> t.lifecycle.state == InstanceState::Dead && t.lifecycle.side
                is Empty && t.cadence == Cadence::Weekly
            &&& !confirmed(c, since, now) ==> t.lifecycle.state == InstanceState::Dying
                && t.lifecycle.side == (SideData::Dying { since, failed_checks_count: c })
                && t.cadence == Cadence::Daily
        },
{
}

/// A redirect of a Moving instance to its current target adds one to its
/// redirect count and keeps the start of the run, unless the raised count
/// confirms the run: then the instance is Moved to that target and checked
/// weekly. A redirect to another target restarts the run at `now`.
pub proof fn lemma_redirects_count_up(l: Lifecycle, to: u64, now: i64)
    requires
        l.wf(),
        l.side is Moving,
    ensures
        l.side matches SideData::Moving { since, redirects_count, moving_to } ==> {
            let t = spec_next(l, Verdict::Moved(to), now);
            let c = bump(redirects_count);
            &&& redirects_count < u64::MAX ==> c > redirects_count
            &&& to == moving_to && confirmed(c, since, now) ==> t.lifecycle.state == InstanceState::Moved
                && t.lifecycle.side == (SideData::Moved { moved_to: to }) && t.cadence == Cadence::Weekly
            &&& to == moving_to && !confirmed(c, since, now) ==> t.lifecycle.state == InstanceState::Moving
                && t.lifecycle.side == (SideData::Moving { since, redirects_count: c, moving_to })
                && t.cadence == Cadence::Daily
            &&& to != moving_to ==> t == start_moving(to, now)
        },
{
}

} // verus!
