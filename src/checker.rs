use vstd::prelude::*;
use crate::machine::Verdict;
use crate::probe::ProbeAction;
use crate::schedule::{valid_instant, valid_offset};
use crate::store::{add_instance_post, has_host, moved_post, reschedule_post, verdict_post, Instance, Store, StoreError};

verus! {

/// Why applying a probe's output failed.
#[derive(PartialEq, Eq, Structural, Debug, Clone, Copy)]
pub enum CheckError {
    /// The store refused the change.
    Store(StoreError),
    /// The probe's output broke the line protocol.
    ProtocolViolation,
}

/// The store's part of a check result: a protocol violation counts as success.
pub open spec fn store_part(r: Result<(), CheckError>) -> Result<(), StoreError> {
    match r {
        Ok(u) => Ok(u),
        Err(CheckError::Store(e)) => Err(e),
        Err(CheckError::ProtocolViolation) => Ok(()),
    }
}

/// What applying `action` for the probed instance `target` at `now`, in a
/// zone `offset` seconds east of UTC, does to the records, and what it returns.
pub open spec fn probe_action_post(
    before: Seq<Instance>,
    after: Seq<Instance>,
    target: Seq<char>,
    action: ProbeAction,
    now: i64,
    offset: i32,
    r: Result<(), CheckError>,
) -> bool {
    match action {
        ProbeAction::MarkDead => verdict_post(before, after, target, Verdict::Dead, now, store_part(r))
            && r != Err::<(), CheckError>(CheckError::ProtocolViolation),
        ProbeAction::MarkDeadForViolation => verdict_post(before, after, target, Verdict::Dead, now, store_part(r))
            && r == if has_host(before, target) {
            Err::<(), CheckError>(CheckError::ProtocolViolation)
        } else {
            Err::<(), CheckError>(CheckError::Store(StoreError::UnknownInstance))
        },
        ProbeAction::MarkAlive => verdict_post(before, after, target, Verdict::Alive, now, store_part(r))
            && r != Err::<(), CheckError>(CheckError::ProtocolViolation),
        ProbeAction::Reschedule => reschedule_post(before, after, target, now, store_part(r))
            && r != Err::<(), CheckError>(CheckError::ProtocolViolation),
        ProbeAction::MarkMoved(to) => moved_post(before, after, target, to@, now, offset, store_part(r))
            && r != Err::<(), CheckError>(CheckError::ProtocolViolation),
        ProbeAction::AddPeer(peer) => add_instance_post(before, after, target, peer@, now, offset, store_part(r))
            && r != Err::<(), CheckError>(CheckError::ProtocolViolation),
        ProbeAction::Finish => r is Ok && after == before,
    }
}

/// Lifts a store result into a check result.
fn lift(r: Result<(), StoreError>) -> (c: Result<(), CheckError>)
    ensures
        store_part(c) == r,
        c != Err::<(), CheckError>(CheckError::ProtocolViolation),
{
    match r {
        Ok(u) => Ok(u),
        Err(e) => Err(CheckError::Store(e)),
    }
}

/// Applies to the store what one event of the probe of `target` calls for.
pub fn apply_probe_action(
    store: &mut Store,
    target: &String,
    action: ProbeAction,
    now: i64,
    offset: i32,
) -> (r: Result<(), CheckError>)
    requires
        old(store).wf(),
        valid_instant(now),
        valid_offset(offset),
    ensures
        final(store).wf(),
        probe_action_post(old(store).rows(), final(store).rows(), target@, action, now, offset, r),
{
    match action {
        ProbeAction::MarkDead => lift(store.mark_dead(target, now)),
        ProbeAction::MarkDeadForViolation => {
            let r = store.mark_dead(target, now);
            match r {
                Ok(()) => Err(CheckError::ProtocolViolation),
                Err(e) => Err(CheckError::Store(e)),
            }
        },
        ProbeAction::MarkAlive => lift(store.mark_alive(target, now)),
        ProbeAction::Reschedule => lift(store.reschedule(target, now)),
        ProbeAction::MarkMoved(to) => lift(store.mark_moved(target, &to, now, offset)),
        ProbeAction::AddPeer(peer) => lift(store.add_instance(target, &peer, now, offset)),
        ProbeAction::Finish => Ok(()),
    }
}

} // verus!
