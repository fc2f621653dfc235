use vstd::prelude::*;
use crate::index::{hash_name, name_hash, HostIndex};
use crate::machine::{confirmed, next, spec_next, Lifecycle, SideData, Verdict};
use crate::queue::{due_le, Due, DueQueue};
use crate::schedule::{cadence_span, due_today, next_check_after, rand_datetime_today, valid_instant, valid_offset, DAY, WEEK};
use crate::state::{Cadence, InstanceState};

verus! {

/// Hostname inserted when the store is initialised.
pub const BOOTSTRAP_HOST: &'static str = "mastodon.social";

/// One tracked instance. Its id is its position in the store.
#[derive(Debug)]
pub struct Instance {
    pub hostname: String,
    /// Id of the instance whose peer list or redirect revealed this one.
    pub discovered_via: Option<u64>,
    pub lifecycle: Lifecycle,
    pub last_check: Option<i64>,
    pub next_check: i64,
    /// Set while a probe of this instance is in progress.
    pub check_started: Option<i64>,
}

impl Instance {
    /// A copy of this record.
    pub fn duplicate(&self) -> (r: Instance)
        ensures
            r == *self,
    {
        Instance {
            hostname: self.hostname.clone(),
            discovered_via: self.discovered_via,
            lifecycle: self.lifecycle,
            last_check: self.last_check,
            next_check: self.next_check,
            check_started: self.check_started,
        }
    }
}

/// Why a store operation was refused.
#[derive(PartialEq, Eq, Structural, Debug, Clone, Copy)]
pub enum StoreError {
    /// No instance has the given hostname.
    UnknownInstance,
    /// The store holds as many instances as ids can number.
    Full,
    /// A restored record breaks an invariant of the store.
    InvalidRecord,
}

/// Largest number of instances a store holds: as many as a `Vec` can index.
pub const MAX_INSTANCES: usize = usize::MAX;

/// All tracked instances, keyed by position, with an index by hostname.
pub struct Store {
    instances: Vec<Instance>,
    index: HostIndex,
    due: DueQueue,
}

/// `due` holds the entry of every record that is not being checked: its next
/// check and its id.
spec fn queued(due: DueQueue, rows: Seq<Instance>) -> bool {
    &&& due.wf()
    &&& forall|i: int|
        0 <= i < rows.len() && (#[trigger] rows[i]).check_started is None ==> due.entries().contains(
            (rows[i].next_check, i as u64),
        )
}

/// `index` files every record of `rows` under the hash of its hostname, and
/// nothing else.
spec fn indexed(index: HostIndex, rows: Seq<Instance>) -> bool {
    &&& forall|i: int| 0 <= i < rows.len() ==> index.ids(name_hash(#[trigger] rows[i].hostname@)).contains(i as u64)
    &&& forall|h: u64, k: int|
        0 <= k < index.ids(h).len() ==> #[trigger] index.ids(h)[k] < rows.len() && name_hash(
            rows[index.ids(h)[k] as int].hostname@,
        ) == h
}

/// Whether `id` names a record of `rows`.
pub open spec fn is_id(rows: Seq<Instance>, id: u64) -> bool {
    id < rows.len()
}

/// The records that `r` points to exist.
pub open spec fn refs_in(rows: Seq<Instance>, r: Instance) -> bool {
    &&& (r.discovered_via matches Some(v) ==> is_id(rows, v))
    &&& (r.lifecycle.side matches SideData::Moving { moving_to, .. } ==> is_id(rows, moving_to))
    &&& (r.lifecycle.side matches SideData::Moved { moved_to } ==> is_id(rows, moved_to))
}

/// Whether some record of `rows` has hostname `host`.
pub open spec fn has_host(rows: Seq<Instance>, host: Seq<char>) -> bool {
    exists|i: int| 0 <= i < rows.len() && #[trigger] rows[i].hostname@ == host
}

/// The record a probe verdict leaves behind: new lifecycle, checked at `now`,
/// next check at `next_check`.
pub open spec fn after_verdict(r: Instance, verdict: Verdict, now: i64, next_check: i64) -> Instance {
    Instance {
        lifecycle: spec_next(r.lifecycle, verdict, now).lifecycle,
        last_check: Some(now),
        next_check,
        ..r
    }
}

/// A record just discovered: named `host`, revealed by `via`, never checked,
/// due at `next_check`.
pub open spec fn discovered_record(host: Seq<char>, via: Option<u64>, next_check: i64, r: Instance) -> bool {
    &&& r.hostname@ == host
    &&& r.discovered_via == via
    &&& r.lifecycle == Lifecycle { state: InstanceState::Discovered, side: SideData::Empty }
    &&& r.last_check is None
    &&& r.next_check == next_check
    &&& r.check_started is None
}

/// Invariants of a sequence of records: one record per hostname, references
/// point to existing records, and every lifecycle keeps its side data in the
/// table of its state.
pub open spec fn rows_wf(rows: Seq<Instance>) -> bool {
    &&& rows.len() <= MAX_INSTANCES
    &&& forall|i: int, j: int|
        0 <= i < rows.len() && 0 <= j < rows.len() && i != j
            ==> #[trigger] rows[i].hostname@ != #[trigger] rows[j].hostname@
    &&& forall|i: int| 0 <= i < rows.len() ==> #[trigger] rows[i].lifecycle.wf()
    &&& forall|i: int| 0 <= i < rows.len() ==> refs_in(rows, #[trigger] rows[i])
}

impl Store {
    /// The records, indexed by id.
    pub closed spec fn rows(&self) -> Seq<Instance> {
        self.instances@
    }

    /// The index finds every record by its hostname.
    pub closed spec fn index_ok(&self) -> bool {
        indexed(self.index, self.rows())
    }

    /// The due queue holds every record that is not being checked.
    pub closed spec fn due_ok(&self) -> bool {
        queued(self.due, self.rows())
    }

    /// Invariants of the store: those of `rows_wf`, an index that is up to
    /// date and a due queue that misses no record.
    pub open spec fn wf(&self) -> bool {
        rows_wf(self.rows()) && self.index_ok() && self.due_ok()
    }

    /// An empty store.
    pub fn new() -> (r: Store)
        ensures
            r.wf(),
            r.rows().len() == 0,
    {
        Store { instances: Vec::new(), index: HostIndex::new(), due: DueQueue::new() }
    }

    /// Number of records.
    pub fn len(&self) -> (r: usize)
        ensures
            r == self.rows().len(),
    {
        self.instances.len()
    }

    /// The record with id `id`, if there is one.
    pub fn get(&self, id: u64) -> (r: Option<&Instance>)
        ensures
            r is Some <==> id < self.rows().len(),
            r matches Some(x) ==> *x == self.rows()[id as int],
    {
        if id < self.instances.len() as u64 {
            Some(&self.instances[id as usize])
        } else {
            None
        }
    }

    /// The id of the record with hostname `host`.
    pub fn find(&self, host: &String) -> (r: Option<u64>)
        requires
            self.wf(),
        ensures
            r is None <==> !has_host(self.rows(), host@),
            r matches Some(i) ==> i < self.rows().len() && self.rows()[i as int].hostname@ == host@,
    {
        let h = hash_name(host);
        let bucket = match self.index.lookup(h) {
            None => {
                assert forall|i: int| 0 <= i < self.rows().len() implies #[trigger] self.rows()[i].hostname@ != host@ by {
                    if self.rows()[i].hostname@ == host@ {
                        assert(self.index.ids(name_hash(self.rows()[i].hostname@)).contains(i as u64));
                    }
                }
                return None;
            },
            Some(b) => b,
        };
        let mut j: usize = 0;
        while j < bucket.len()
            invariant
                self.wf(),
                bucket@ == self.index.ids(h),
                h == name_hash(host@),
                j <= bucket@.len(),
                forall|k: int| 0 <= k < j ==> self.rows()[#[trigger] bucket@[k] as int].hostname@ != host@,
            decreases bucket@.len() - j,
        {
            let id = bucket[j];
            assert(self.index.ids(h)[j as int] == id);
            if self.instances[id as usize].hostname == *host {
                return Some(id);
            }
            j += 1;
        }
        assert forall|i: int| 0 <= i < self.rows().len() implies #[trigger] self.rows()[i].hostname@ != host@ by {
            if self.rows()[i].hostname@ == host@ {
                assert(self.index.ids(name_hash(self.rows()[i].hostname@)).contains(i as u64));
                let k = choose|k: int| 0 <= k < bucket@.len() && bucket@[k] == i as u64;
                assert(self.rows()[bucket@[k] as int].hostname@ != host@);
            }
        }
        None
    }
}

/// Record `i` took `verdict` at `now`: it alone of the first `before.len()`
/// records changed, got its new lifecycle, was checked at `now` and is next due
/// strictly after `now`, within the span of the transition's cadence.
pub open spec fn verdict_applied(before: Seq<Instance>, after: Seq<Instance>, i: int, verdict: Verdict, now: i64) -> bool {
    &&& after.len() >= before.len()
    &&& forall|j: int| 0 <= j < before.len() && j != i ==> after[j] == before[j]
    &&& after[i] == after_verdict(before[i], verdict, now, after[i].next_check)
    &&& now < after[i].next_check
    &&& after[i].next_check <= now + cadence_span(spec_next(before[i].lifecycle, verdict, now).cadence)
}

/// What `add_instance(source, peer, now)` returning `r` does to the records.
pub open spec fn add_instance_post(
    before: Seq<Instance>,
    after: Seq<Instance>,
    source: Seq<char>,
    peer: Seq<char>,
    now: i64,
    offset: i32,
    r: Result<(), StoreError>,
) -> bool {
    if !has_host(before, source) {
        r == Err::<(), StoreError>(StoreError::UnknownInstance) && after == before
    } else if has_host(before, peer) {
        r is Ok && after == before
    } else if before.len() >= MAX_INSTANCES {
        r == Err::<(), StoreError>(StoreError::Full) && after == before
    } else {
        &&& r is Ok
        &&& after.len() == before.len() + 1
        &&& after.subrange(0, before.len() as int) == before
        &&& forall|s: int|
            0 <= s < before.len() && #[trigger] before[s].hostname@ == source
                ==> discovered_record(peer, Some(s as u64), after[before.len() as int].next_check, after[before.len() as int])
        &&& due_today(after[before.len() as int].next_check, now, offset)
        &&& after[before.len() as int].next_check <= now + DAY
    }
}

/// What `mark_alive` or `mark_dead` of `host` at `now` returning `r` does:
/// an unknown host is refused and changes nothing; otherwise its record takes
/// `verdict` and no other record changes.
pub open spec fn verdict_post(
    before: Seq<Instance>,
    after: Seq<Instance>,
    host: Seq<char>,
    verdict: Verdict,
    now: i64,
    r: Result<(), StoreError>,
) -> bool {
    &&& r is Err <==> !has_host(before, host)
    &&& r is Err ==> r == Err::<(), StoreError>(StoreError::UnknownInstance) && after == before
    &&& r is Ok ==> after.len() == before.len()
    &&& forall|i: int|
        0 <= i < before.len() && #[trigger] before[i].hostname@ == host
            ==> verdict_applied(before, after, i, verdict, now)
}

/// What `mark_moved(host, to, now)` returning `r` does: an unknown host is
/// refused; a target seen for the first time is appended as Discovered,
/// revealed by `host` and due before the end of the local day in a zone
/// `offset` seconds east of UTC (refused when the
/// store is full); then the record of `host` takes the redirect verdict with
/// the target's id.
pub open spec fn moved_post(
    before: Seq<Instance>,
    after: Seq<Instance>,
    host: Seq<char>,
    to: Seq<char>,
    now: i64,
    offset: i32,
    r: Result<(), StoreError>,
) -> bool {
    &&& !has_host(before, host) ==> r == Err::<(), StoreError>(StoreError::UnknownInstance)
    &&& has_host(before, host) && !has_host(before, to) && before.len() >= MAX_INSTANCES
        ==> r == Err::<(), StoreError>(StoreError::Full)
    &&& r is Ok <==> has_host(before, host) && (has_host(before, to) || before.len() < MAX_INSTANCES)
    &&& r is Err ==> after == before
    &&& r is Ok && has_host(before, to) ==> after.len() == before.len()
    &&& r is Ok ==> forall|j: int| 0 <= j < before.len() ==> #[trigger] after[j].hostname@ == before[j].hostname@
    &&& r is Ok && !has_host(before, to) ==> {
        let n = before.len() as int;
        &&& after.len() == n + 1
        &&& due_today(after[n].next_check, now, offset)
        &&& after[n].next_check <= now + DAY
        &&& forall|i: int|
            0 <= i < n && #[trigger] before[i].hostname@ == host
                ==> discovered_record(to, Some(i as u64), after[n].next_check, after[n])
    }
    &&& r is Ok ==> forall|i: int, t: int|
        0 <= i < before.len() && 0 <= t < after.len() && #[trigger] before[i].hostname@ == host
            && #[trigger] after[t].hostname@ == to
            ==> verdict_applied(before, after, i, Verdict::Moved(t as u64), now)
}

/// What `reschedule(host, now)` returning `r` does: an unknown host is
/// refused; otherwise only its next check changes, to a time after `now`
/// within the span of its state's retry cadence.
pub open spec fn reschedule_post(
    before: Seq<Instance>,
    after: Seq<Instance>,
    host: Seq<char>,
    now: i64,
    r: Result<(), StoreError>,
) -> bool {
    &&& r is Err <==> !has_host(before, host)
    &&& r is Err ==> r == Err::<(), StoreError>(StoreError::UnknownInstance) && after == before
    &&& after.len() == before.len()
    &&& forall|i: int|
        0 <= i < before.len() && #[trigger] before[i].hostname@ != host ==> after[i] == before[i]
    &&& forall|i: int|
        0 <= i < before.len() && #[trigger] before[i].hostname@ == host ==> {
            let o = before[i];
            let n = after[i];
            &&& n == Instance { next_check: n.next_check, ..o }
            &&& now < n.next_check <= now + cadence_span(o.lifecycle.state.spec_retry_cadence())
        }
}

impl Store {
    /// Replaces record `i` by one with the same hostname.
    fn set_row(&mut self, i: usize, row: Instance)
        requires
            old(self).wf(),
            i < old(self).rows().len(),
            row.hostname@ == old(self).rows()[i as int].hostname@,
            row.lifecycle.wf(),
            refs_in(old(self).rows(), row),
        ensures
            final(self).rows() == old(self).rows().update(i as int, row),
            final(self).wf(),
    {
        if row.check_started.is_none() {
            self.due.push((row.next_check, i as u64));
        }
        self.instances.set(i, row);
        assert forall|k: int| 0 <= k < self.rows().len() implies refs_in(self.rows(), #[trigger] self.rows()[k]) by {
            assert(refs_in(old(self).rows(), self.rows()[k]));
        }
        assert forall|k: int|
            0 <= k < self.rows().len() && (#[trigger] self.rows()[k]).check_started is None implies self.due.entries().contains(
                (self.rows()[k].next_check, k as u64),
            ) by {
            if k != i {
                assert(self.rows()[k] == old(self).rows()[k]);
            }
        }
    }

    /// Appends a record with a new hostname.
    fn push_row(&mut self, row: Instance) -> (id: u64)
        requires
            old(self).wf(),
            old(self).rows().len() < MAX_INSTANCES,
            !has_host(old(self).rows(), row.hostname@),
            row.lifecycle.wf(),
            refs_in(old(self).rows(), row),
        ensures
            final(self).rows() == old(self).rows().push(row),
            id == old(self).rows().len(),
            final(self).wf(),
    {
        let id = self.instances.len() as u64;
        let h = hash_name(&row.hostname);
        let ghost old_index = self.index;
        self.index.add(h, id);
        if row.check_started.is_none() {
            self.due.push((row.next_check, id));
        }
        self.instances.push(row);
        proof {
            let rows = self.rows();
            assert forall|i: int| 0 <= i < rows.len() implies self.index.ids(name_hash(#[trigger] rows[i].hostname@)).contains(i as u64) by {
                let g = name_hash(rows[i].hostname@);
                if i < id {
                    assert(rows[i] == old(self).rows()[i]);
                    assert(old_index.ids(g).contains(i as u64));
                    let m = choose|m: int| 0 <= m < old_index.ids(g).len() && old_index.ids(g)[m] == i as u64;
                    assert(self.index.ids(g)[m] == i as u64);
                } else {
                    assert(self.index.ids(h)[old_index.ids(h).len() as int] == id);
                }
            }
            assert forall|g: u64, m: int| 0 <= m < self.index.ids(g).len() implies #[trigger] self.index.ids(g)[m] < rows.len() && name_hash(
                rows[self.index.ids(g)[m] as int].hostname@,
            ) == g by {
                if g == h && m == old_index.ids(h).len() {
                } else {
                    assert(self.index.ids(g)[m] == old_index.ids(g)[m]);
                    assert(rows[old_index.ids(g)[m] as int] == old(self).rows()[old_index.ids(g)[m] as int]);
                }
            }
            assert forall|k: int|
                0 <= k < rows.len() && (#[trigger] rows[k]).check_started is None implies self.due.entries().contains(
                    (rows[k].next_check, k as u64),
                ) by {
                if k < id {
                    assert(rows[k] == old(self).rows()[k]);
                }
            }
        }
        assert forall|k: int| 0 <= k < self.rows().len() implies refs_in(self.rows(), #[trigger] self.rows()[k]) by {
            assert(refs_in(old(self).rows(), self.rows()[k]));
        }
        assert forall|a: int, b: int|
            0 <= a < self.rows().len() && 0 <= b < self.rows().len() && a != b
                implies #[trigger] self.rows()[a].hostname@ != #[trigger] self.rows()[b].hostname@ by {
            if a == old(self).rows().len() {
                assert(old(self).rows()[b].hostname@ == self.rows()[b].hostname@);
            } else if b == old(self).rows().len() {
                assert(old(self).rows()[a].hostname@ == self.rows()[a].hostname@);
            }
        }
        id
    }

    /// Applies `verdict` at `now` to record `i`.
    fn apply_verdict(&mut self, i: usize, verdict: Verdict, now: i64)
        requires
            old(self).wf(),
            i < old(self).rows().len(),
            valid_instant(now),
            verdict matches Verdict::Moved(t) ==> is_id(old(self).rows(), t),
        ensures
            final(self).wf(),
            final(self).rows().len() == old(self).rows().len(),
            verdict_applied(old(self).rows(), final(self).rows(), i as int, verdict, now),
    {
        let row = self.instances[i].duplicate();
        let tr = next(row.lifecycle, verdict, now);
        let next_check = next_check_after(now, tr.cadence);
        let updated = Instance {
            hostname: row.hostname,
            discovered_via: row.discovered_via,
            lifecycle: tr.lifecycle,
            last_check: Some(now),
            next_check,
            check_started: row.check_started,
        };
        assert(refs_in(old(self).rows(), old(self).rows()[i as int]));
        self.set_row(i, updated);
    }

    /// Records a successful probe of `host` at `now`: the instance becomes
    /// Alive, loses its side data and is next checked within a day.
    pub fn mark_alive(&mut self, host: &String, now: i64) -> (r: Result<(), StoreError>)
        requires
            old(self).wf(),
            valid_instant(now),
        ensures
            final(self).wf(),
            verdict_post(old(self).rows(), final(self).rows(), host@, Verdict::Alive, now, r),
    {
        match self.find(host) {
            None => Err(StoreError::UnknownInstance),
            Some(i) => {
                self.apply_verdict(i as usize, Verdict::Alive, now);
                Ok(())
            },
        }
    }

    /// Records a failed probe of `host` at `now`, following the failure
    /// branch of the transition table.
    pub fn mark_dead(&mut self, host: &String, now: i64) -> (r: Result<(), StoreError>)
        requires
            old(self).wf(),
            valid_instant(now),
        ensures
            final(self).wf(),
            verdict_post(old(self).rows(), final(self).rows(), host@, Verdict::Dead, now, r),
    {
        match self.find(host) {
            None => Err(StoreError::UnknownInstance),
            Some(i) => {
                self.apply_verdict(i as usize, Verdict::Dead, now);
                Ok(())
            },
        }
    }

    /// Records that a probe of `host` at `now` was redirected to `to`. A
    /// target seen for the first time is added as Discovered, revealed by
    /// `host` and due today; then the redirect branch of the transition table
    /// is followed with the target's id.
    pub fn mark_moved(&mut self, host: &String, to: &String, now: i64, offset: i32) -> (r: Result<(), StoreError>)
        requires
            old(self).wf(),
            valid_instant(now),
            valid_offset(offset),
        ensures
            final(self).wf(),
            moved_post(old(self).rows(), final(self).rows(), host@, to@, now, offset, r),
    {
        let i = match self.find(host) {
            None => {
                return Err(StoreError::UnknownInstance);
            },
            Some(i) => i,
        };
        let ghost before = self.rows();
        let t = match self.find(to) {
            Some(t) => t,
            None => {
                if self.instances.len() >= MAX_INSTANCES {
                    return Err(StoreError::Full);
                }
                let next_check = rand_datetime_today(now, offset);
                let row = Instance {
                    hostname: to.clone(),
                    discovered_via: Some(i),
                    lifecycle: Lifecycle::discovered(),
                    last_check: None,
                    next_check,
                    check_started: None,
                };
                self.push_row(row)
            },
        };
        let ghost mid = self.rows();
        self.apply_verdict(i as usize, Verdict::Moved(t), now);
        proof {
            assert forall|a: int, b: int|
                0 <= a < before.len() && 0 <= b < self.rows().len()
                    && #[trigger] before[a].hostname@ == host@
                    && #[trigger] self.rows()[b].hostname@ == to@
                    implies verdict_applied(before, self.rows(), a, Verdict::Moved(b as u64), now) by {
                assert(a == i);
                assert(mid[b].hostname@ == self.rows()[b].hostname@ || b == i);
                assert(b == t);
                assert(mid[a] == before[a]);
            }
        }
        Ok(())
    }
}

impl Store {
    /// Adds `peer`, revealed by the peer list of `source`, as a Discovered
    /// instance due today; a peer already known is left as it is.
    pub fn add_instance(&mut self, source: &String, peer: &String, now: i64, offset: i32) -> (r: Result<(), StoreError>)
        requires
            old(self).wf(),
            valid_instant(now),
            valid_offset(offset),
        ensures
            final(self).wf(),
            add_instance_post(old(self).rows(), final(self).rows(), source@, peer@, now, offset, r),
    {
        let s = match self.find(source) {
            None => {
                return Err(StoreError::UnknownInstance);
            },
            Some(s) => s,
        };
        if self.find(peer).is_some() {
            return Ok(());
        }
        if self.instances.len() >= MAX_INSTANCES {
            return Err(StoreError::Full);
        }
        let next_check = rand_datetime_today(now, offset);
        let row = Instance {
            hostname: peer.clone(),
            discovered_via: Some(s),
            lifecycle: Lifecycle::discovered(),
            last_check: None,
            next_check,
            check_started: None,
        };
        let ghost before = self.rows();
        self.push_row(row);
        assert(self.rows().subrange(0, before.len() as int) == before);
        Ok(())
    }

    /// Picks a new next check for `host` after a probe that gave no verdict,
    /// at the cadence of its current state. Nothing else changes.
    pub fn reschedule(&mut self, host: &String, now: i64) -> (r: Result<(), StoreError>)
        requires
            old(self).wf(),
            valid_instant(now),
        ensures
            final(self).wf(),
            reschedule_post(old(self).rows(), final(self).rows(), host@, now, r),
    {
        match self.find(host) {
            None => Err(StoreError::UnknownInstance),
            Some(i) => {
                let row = self.instances[i as usize].duplicate();
                let next_check = next_check_after(now, row.lifecycle.state.retry_cadence());
                let updated = Instance { next_check, ..row };
                assert(refs_in(self.rows(), self.rows()[i as int]));
                self.set_row(i as usize, updated);
                Ok(())
            },
        }
    }

    /// Marks a probe of `host` as in progress since `now`. Unknown hosts are ignored.
    pub fn start_checking(&mut self, host: &String, now: i64)
        requires
            old(self).wf(),
        ensures
            final(self).wf(),
            final(self).rows().len() == old(self).rows().len(),
            forall|i: int|
                0 <= i < old(self).rows().len() ==> #[trigger] final(self).rows()[i] == if old(self).rows()[i].hostname@ == host@ {
                    Instance { check_started: Some(now), ..old(self).rows()[i] }
                } else {
                    old(self).rows()[i]
                },
    {
        if let Some(i) = self.find(host) {
            let row = self.instances[i as usize].duplicate();
            let updated = Instance { check_started: Some(now), ..row };
            assert(refs_in(self.rows(), self.rows()[i as int]));
            self.set_row(i as usize, updated);
        }
    }

    /// Clears the in-progress mark of `host`. Unknown hosts are ignored.
    pub fn finish_checking(&mut self, host: &String)
        requires
            old(self).wf(),
        ensures
            final(self).wf(),
            final(self).rows().len() == old(self).rows().len(),
            forall|i: int|
                0 <= i < old(self).rows().len() ==> #[trigger] final(self).rows()[i] == if old(self).rows()[i].hostname@ == host@ {
                    Instance { check_started: None, ..old(self).rows()[i] }
                } else {
                    old(self).rows()[i]
                },
    {
        if let Some(i) = self.find(host) {
            let row = self.instances[i as usize].duplicate();
            let updated = Instance { check_started: None, ..row };
            assert(refs_in(self.rows(), self.rows()[i as int]));
            self.set_row(i as usize, updated);
        }
    }

    /// The hostname and scheduled time of the not-in-progress instance that is
    /// due first; the lowest id wins a tie. `None` when every instance is
    /// being checked. Only the due queue changes: entries that no longer match
    /// their record are dropped.
    pub fn pick_next_instance(&mut self) -> (r: Option<(String, i64)>)
        requires
            old(self).wf(),
        ensures
            final(self).wf(),
            final(self).rows() == old(self).rows(),
            r is None <==> forall|i: int| 0 <= i < old(self).rows().len() ==> #[trigger] old(self).rows()[i].check_started is Some,
            r matches Some((h, t)) ==> exists|i: int|
                0 <= i < old(self).rows().len() && #[trigger] old(self).rows()[i].hostname@ == h@
                    && old(self).rows()[i].next_check == t && old(self).rows()[i].check_started is None
                    && (forall|j: int| 0 <= j < old(self).rows().len() && #[trigger] old(self).rows()[j].check_started is None
                        ==> t <= old(self).rows()[j].next_check)
                    && (forall|j: int| 0 <= j < i && #[trigger] old(self).rows()[j].check_started is None
                        ==> t < old(self).rows()[j].next_check),
    {
        loop
            invariant
                self.wf(),
                self.rows() == old(self).rows(),
            decreases self.due.entries().len(),
        {
            let ghost rows = self.rows();
            match self.due.peek() {
                None => {
                    assert forall|i: int| 0 <= i < rows.len() implies #[trigger] rows[i].check_started is Some by {
                        if rows[i].check_started is None {
                            assert(self.due.entries().contains((rows[i].next_check, i as u64)));
                        }
                    }
                    return None;
                },
                Some((t, id)) => {
                    if id < self.instances.len() as u64 && self.instances[id as usize].check_started.is_none()
                        && self.instances[id as usize].next_check == t {
                        let h = self.instances[id as usize].hostname.clone();
                        proof {
                            let i = id as int;
                            assert(rows[i].hostname@ == h@);
                            assert forall|j: int| 0 <= j < rows.len() && #[trigger] rows[j].check_started is None
                                implies t <= rows[j].next_check && (j < i ==> t < rows[j].next_check) by {
                                let e = (rows[j].next_check, j as u64);
                                assert(self.due.entries().contains(e));
                                let k = choose|k: int| 0 <= k < self.due.entries().len() && self.due.entries()[k] == e;
                                assert(due_le((t, id), self.due.entries()[k]));
                            }
                        }
                        return Some((h, t));
                    }
                    let ghost stale: Due = (t, id);
                    let ghost queued_before = self.due.entries();
                    self.due.pop();
                    proof {
                        assert forall|i: int|
                            0 <= i < rows.len() && (#[trigger] rows[i]).check_started is None implies self.due.entries().contains(
                                (rows[i].next_check, i as u64),
                            ) by {
                            assert(queued_before.contains((rows[i].next_check, i as u64)));
                            assert((rows[i].next_check, i as u64) != stale);
                        }
                        assert(self.due_ok());
                    }
                },
            }
        }
    }
}

/// Whether `id`, if any, is below `n`.
fn id_below(id: Option<u64>, n: usize) -> (r: bool)
    ensures
        r == (id matches Some(v) ==> v < n),
{
    match id {
        Some(v) => v < n as u64,
        None => true,
    }
}

impl Store {
    /// Clears every in-progress mark: probes that were running when the
    /// process stopped are not running any more.
    pub fn disengage_previous_checks(&mut self)
        requires
            old(self).wf(),
        ensures
            final(self).wf(),
            final(self).rows().len() == old(self).rows().len(),
            forall|i: int|
                0 <= i < old(self).rows().len() ==> #[trigger] final(self).rows()[i] == (Instance {
                    check_started: None,
                    ..old(self).rows()[i]
                }),
    {
        let mut k: usize = 0;
        while k < self.instances.len()
            invariant
                self.wf(),
                k <= self.rows().len(),
                self.rows().len() == old(self).rows().len(),
                forall|i: int| 0 <= i < k ==> #[trigger] self.rows()[i] == (Instance { check_started: None, ..old(self).rows()[i] }),
                forall|i: int| k <= i < self.rows().len() ==> #[trigger] self.rows()[i] == old(self).rows()[i],
            decreases self.rows().len() - k,
        {
            let row = self.instances[k].duplicate();
            let updated = Instance { check_started: None, ..row };
            assert(refs_in(self.rows(), self.rows()[k as int]));
            self.set_row(k, updated);
            k += 1;
        }
    }

    /// Prepares the store for a run started at `now`: adds the bootstrap host
    /// as a Discovered instance due at `now` if it is absent, and clears every
    /// in-progress mark.
    pub fn init(&mut self, now: i64) -> (r: Result<(), StoreError>)
        requires
            old(self).wf(),
        ensures
            final(self).wf(),
            forall|i: int| 0 <= i < final(self).rows().len() ==> #[trigger] final(self).rows()[i].check_started is None,
            r is Err <==> !has_host(old(self).rows(), BOOTSTRAP_HOST@) && old(self).rows().len() >= MAX_INSTANCES,
            r is Err ==> r == Err::<(), StoreError>(StoreError::Full),
            r is Ok ==> has_host(final(self).rows(), BOOTSTRAP_HOST@),
            has_host(old(self).rows(), BOOTSTRAP_HOST@) ==> final(self).rows().len() == old(self).rows().len(),
            r is Ok && !has_host(old(self).rows(), BOOTSTRAP_HOST@) ==> {
                let n = old(self).rows().len() as int;
                &&& final(self).rows().len() == n + 1
                &&& discovered_record(BOOTSTRAP_HOST@, None, now, final(self).rows()[n])
            },
            forall|i: int|
                0 <= i < old(self).rows().len() ==> #[trigger] final(self).rows()[i] == (Instance {
                    check_started: None,
                    ..old(self).rows()[i]
                }),
    {
        let host = String::from_str(BOOTSTRAP_HOST);
        let mut result = Ok(());
        if self.find(&host).is_none() {
            if self.instances.len() >= MAX_INSTANCES {
                result = Err(StoreError::Full);
            } else {
                let row = Instance {
                    hostname: host,
                    discovered_via: None,
                    lifecycle: Lifecycle::discovered(),
                    last_check: None,
                    next_check: now,
                    check_started: None,
                };
                let id = self.push_row(row);
                assert(self.rows()[id as int].hostname@ == BOOTSTRAP_HOST@);
            }
        }
        let ghost mid = self.rows();
        self.disengage_previous_checks();
        assert forall|i: int| 0 <= i < mid.len() && #[trigger] mid[i].hostname@ == BOOTSTRAP_HOST@
            implies has_host(self.rows(), BOOTSTRAP_HOST@) by {
            assert(self.rows()[i].hostname@ == mid[i].hostname@);
        }
        result
    }

    /// Spreads checks that fell due before `now` over the rest of the local
    /// day, in a zone `offset` seconds east of UTC; every other record stays
    /// as it is.
    pub fn reschedule_missed_checks(&mut self, now: i64, offset: i32)
        requires
            old(self).wf(),
            valid_instant(now),
            valid_offset(offset),
        ensures
            final(self).wf(),
            final(self).rows().len() == old(self).rows().len(),
            forall|i: int|
                0 <= i < old(self).rows().len() && #[trigger] old(self).rows()[i].next_check >= now
                    ==> final(self).rows()[i] == old(self).rows()[i],
            forall|i: int|
                0 <= i < old(self).rows().len() && #[trigger] old(self).rows()[i].next_check < now ==> {
                    let n = final(self).rows()[i];
                    &&& n == Instance { next_check: n.next_check, ..old(self).rows()[i] }
                    &&& due_today(n.next_check, now, offset)
                    &&& n.next_check <= now + DAY
                },
    {
        let mut k: usize = 0;
        while k < self.instances.len()
            invariant
                self.wf(),
                valid_instant(now),
                valid_offset(offset),
                k <= self.rows().len(),
                self.rows().len() == old(self).rows().len(),
                forall|i: int|
                    0 <= i < k && #[trigger] old(self).rows()[i].next_check >= now
                        ==> self.rows()[i] == old(self).rows()[i],
                forall|i: int|
                    0 <= i < k && #[trigger] old(self).rows()[i].next_check < now ==> {
                        let n = self.rows()[i];
                        &&& n == Instance { next_check: n.next_check, ..old(self).rows()[i] }
                        &&& due_today(n.next_check, now, offset)
                    &&& n.next_check <= now + DAY
                    },
                forall|i: int| k <= i < self.rows().len() ==> #[trigger] self.rows()[i] == old(self).rows()[i],
            decreases self.rows().len() - k,
        {
            if self.instances[k].next_check < now {
                let row = self.instances[k].duplicate();
                let next_check = rand_datetime_today(now, offset);
                let updated = Instance { next_check, ..row };
                assert(refs_in(self.rows(), self.rows()[k as int]));
                self.set_row(k, updated);
            }
            k += 1;
        }
    }

    /// Rebuilds a store from saved records, ids being positions. Fails with
    /// `InvalidRecord` unless hostnames are distinct, every lifecycle keeps its
    /// side data in the table of its state and every reference names a record.
    pub fn restore(rows: Vec<Instance>) -> (r: Result<Store, StoreError>)
        ensures
            r matches Ok(s) ==> s.wf() && s.rows() == rows@,
            r is Err ==> r == Err::<Store, StoreError>(StoreError::InvalidRecord),
            r is Ok <==> rows_wf(rows@),
    {
        let n = rows.len();
        if n > MAX_INSTANCES {
            return Err(StoreError::InvalidRecord);
        }
        let mut index = HostIndex::new();
        let mut k: usize = 0;
        while k < n
            invariant
                n == rows@.len(),
                n <= MAX_INSTANCES,
                k <= n,
                forall|i: int| 0 <= i < k ==> #[trigger] rows@[i].lifecycle.wf(),
                forall|i: int| 0 <= i < k ==> refs_in(rows@, #[trigger] rows@[i]),
                forall|i: int, j: int|
                    0 <= i < k && 0 <= j < k && i != j ==> #[trigger] rows@[i].hostname@ != #[trigger] rows@[j].hostname@,
                indexed(index, rows@.subrange(0, k as int)),
            decreases n - k,
        {
            let row = &rows[k];
            if !row.lifecycle.is_wf() || !id_below(row.discovered_via, n) {
                proof {
                    lemma_bad_record(rows@, k as int);
                }
                return Err(StoreError::InvalidRecord);
            }
            let target = match row.lifecycle.side {
                SideData::Moving { moving_to, .. } => Some(moving_to),
                SideData::Moved { moved_to } => Some(moved_to),
                _ => None,
            };
            if !id_below(target, n) {
                proof {
                    lemma_bad_record(rows@, k as int);
                }
                return Err(StoreError::InvalidRecord);
            }
            let ghost prefix = rows@.subrange(0, k as int);
            let h = hash_name(&row.hostname);
            if let Some(bucket) = index.lookup(h) {
                let mut j: usize = 0;
                while j < bucket.len()
                    invariant
                        n == rows@.len(),
                        k < n,
                        row == &rows@[k as int],
                        prefix == rows@.subrange(0, k as int),
                        bucket@ == index.ids(h),
                        indexed(index, prefix),
                        j <= bucket@.len(),
                        forall|m: int| 0 <= m < j ==> rows@[#[trigger] bucket@[m] as int].hostname@ != row.hostname@,
                    decreases bucket@.len() - j,
                {
                    let id = bucket[j];
                    assert(index.ids(h)[j as int] == id);
                    if rows[id as usize].hostname == row.hostname {
                        proof {
                            assert(prefix[id as int] == rows@[id as int]);
                            lemma_duplicate_host(rows@, id as int, k as int);
                        }
                        return Err(StoreError::InvalidRecord);
                    }
                    j += 1;
                }
                assert forall|i: int| 0 <= i < k implies #[trigger] rows@[i].hostname@ != rows@[k as int].hostname@ by {
                    assert(prefix[i] == rows@[i]);
                    if rows@[i].hostname@ == rows@[k as int].hostname@ {
                        assert(index.ids(name_hash(prefix[i].hostname@)).contains(i as u64));
                        let m = choose|m: int| 0 <= m < bucket@.len() && bucket@[m] == i as u64;
                        assert(rows@[bucket@[m] as int].hostname@ != row.hostname@);
                    }
                }
            } else {
                assert forall|i: int| 0 <= i < k implies #[trigger] rows@[i].hostname@ != rows@[k as int].hostname@ by {
                    assert(prefix[i] == rows@[i]);
                    if rows@[i].hostname@ == rows@[k as int].hostname@ {
                        assert(index.ids(name_hash(prefix[i].hostname@)).contains(i as u64));
                    }
                }
            }
            let ghost old_index = index;
            index.add(h, k as u64);
            proof {
                let next = rows@.subrange(0, k + 1);
                assert forall|i: int| 0 <= i < next.len() implies index.ids(name_hash(#[trigger] next[i].hostname@)).contains(i as u64) by {
                    let g = name_hash(next[i].hostname@);
                    if i < k {
                        assert(next[i] == prefix[i]);
                        assert(old_index.ids(g).contains(i as u64));
                        let m = choose|m: int| 0 <= m < old_index.ids(g).len() && old_index.ids(g)[m] == i as u64;
                        assert(index.ids(g)[m] == i as u64);
                    } else {
                        assert(next[i] == rows@[k as int]);
                        assert(g == h);
                        assert(index.ids(h)[old_index.ids(h).len() as int] == k as u64);
                    }
                }
                assert forall|g: u64, m: int| 0 <= m < index.ids(g).len() implies #[trigger] index.ids(g)[m] < next.len() && name_hash(
                    next[index.ids(g)[m] as int].hostname@,
                ) == g by {
                    if g == h && m == old_index.ids(h).len() {
                    } else {
                        assert(index.ids(g)[m] == old_index.ids(g)[m]);
                        assert(next[old_index.ids(g)[m] as int] == prefix[old_index.ids(g)[m] as int]);
                    }
                }
            }
            k += 1;
        }
        assert(rows@.subrange(0, n as int) == rows@);
        let mut due = DueQueue::new();
        let mut q: usize = 0;
        while q < n
            invariant
                n == rows@.len(),
                q <= n,
                due.wf(),
                forall|i: int|
                    0 <= i < q && (#[trigger] rows@[i]).check_started is None ==> due.entries().contains(
                        (rows@[i].next_check, i as u64),
                    ),
            decreases n - q,
        {
            if rows[q].check_started.is_none() {
                due.push((rows[q].next_check, q as u64));
            }
            q += 1;
        }
        Ok(Store { instances: rows, index, due })
    }
}

/// In a well-formed store every instance has at most one side row, and it
/// lives in the table of the instance's state: none for Discovered, Alive and
/// Dead. Every mutator keeps the store well-formed, so this holds after any
/// sequence of them.
pub proof fn lemma_side_row_matches_state(rows: Seq<Instance>, i: int)
    requires
        rows_wf(rows),
        0 <= i < rows.len(),
    ensures
        rows[i].lifecycle.side is Empty <==> (rows[i].lifecycle.state == InstanceState::Discovered
            || rows[i].lifecycle.state == InstanceState::Alive || rows[i].lifecycle.state
            == InstanceState::Dead),
        rows[i].lifecycle.side is Dying <==> rows[i].lifecycle.state == InstanceState::Dying,
        rows[i].lifecycle.side is Moving <==> rows[i].lifecycle.state == InstanceState::Moving,
        rows[i].lifecycle.side is Moved <==> rows[i].lifecycle.state == InstanceState::Moved,
{
    assert(rows[i].lifecycle.wf());
}

/// A verdict sets the last check to `now` and the next check strictly later.
pub proof fn lemma_next_check_after_last_check(
    before: Seq<Instance>,
    after: Seq<Instance>,
    i: int,
    verdict: Verdict,
    now: i64,
)
    requires
        verdict_applied(before, after, i, verdict, now),
    ensures
        after[i].last_check == Some(now),
        after[i].next_check > now,
{
}

/// Adding the same peer twice from the same source leaves the store as the
/// first call left it: one record for the peer, with the same `discovered_via`.
pub proof fn lemma_add_instance_idempotent(
    before: Seq<Instance>,
    mid: Seq<Instance>,
    after: Seq<Instance>,
    source: Seq<char>,
    peer: Seq<char>,
    now1: i64,
    now2: i64,
    offset1: i32,
    offset2: i32,
    r1: Result<(), StoreError>,
    r2: Result<(), StoreError>,
)
    requires
        rows_wf(before),
        rows_wf(mid),
        add_instance_post(before, mid, source, peer, now1, offset1, r1),
        r1 is Ok,
        add_instance_post(mid, after, source, peer, now2, offset2, r2),
    ensures
        r2 is Ok,
        after == mid,
        has_host(after, peer),
        forall|i: int, j: int|
            0 <= i < after.len() && 0 <= j < after.len() && #[trigger] after[i].hostname@ == peer
                && #[trigger] after[j].hostname@ == peer ==> i == j,
{
    let s = choose|s: int| 0 <= s < before.len() && #[trigger] before[s].hostname@ == source;
    if has_host(before, peer) {
    } else {
        let n = before.len() as int;
        assert(mid.subrange(0, n)[s] == mid[s]);
        assert(mid[s].hostname@ == source);
        assert(discovered_record(peer, Some(s as u64), mid[n].next_check, mid[n]));
        assert(mid[n].hostname@ == peer);
    }
    assert(has_host(mid, source));
    assert(has_host(mid, peer));
}

/// Hostnames of the Alive records of `rows`, in id order.
pub open spec fn alive_names(rows: Seq<Instance>) -> Seq<Seq<char>>
    decreases rows.len(),
{
    if rows.len() == 0 {
        Seq::empty()
    } else {
        let earlier = alive_names(rows.drop_last());
        if rows.last().lifecycle.state == InstanceState::Alive {
            earlier.push(rows.last().hostname@)
        } else {
            earlier
        }
    }
}

impl Store {
    /// Hostnames of the Alive instances, in id order: the published list.
    pub fn alive_hostnames(&self) -> (r: Vec<String>)
        ensures
            r@.map_values(|h: String| h@) == alive_names(self.rows()),
    {
        let mut out: Vec<String> = Vec::new();
        let mut k: usize = 0;
        while k < self.instances.len()
            invariant
                k <= self.rows().len(),
                out@.map_values(|h: String| h@) == alive_names(self.rows().subrange(0, k as int)),
            decreases self.rows().len() - k,
        {
            let ghost before = out@;
            if self.instances[k].lifecycle.state == InstanceState::Alive {
                out.push(self.instances[k].hostname.clone());
            }
            assert(self.rows().subrange(0, k + 1).drop_last() == self.rows().subrange(0, k as int));
            assert(out@.map_values(|h: String| h@) =~= alive_names(self.rows().subrange(0, k + 1)));
            k += 1;
        }
        assert(self.rows().subrange(0, self.rows().len() as int) == self.rows());
        out
    }
}

/// A record whose lifecycle or references are broken breaks `rows_wf`.
proof fn lemma_bad_record(rows: Seq<Instance>, k: int)
    requires
        0 <= k < rows.len(),
        !rows[k].lifecycle.wf() || !refs_in(rows, rows[k]),
    ensures
        !rows_wf(rows),
{
}

/// Two records with one hostname break `rows_wf`.
proof fn lemma_duplicate_host(rows: Seq<Instance>, i: int, k: int)
    requires
        0 <= i < k < rows.len(),
        rows[i].hostname@ == rows[k].hostname@,
    ensures
        !rows_wf(rows),
{
}

/// A failure recorded for a Dying instance whose failure count is below the
/// largest value raises the count by one and keeps the start of the run, with
/// a check within a day; when the raised count confirms the run the instance
/// is Dead instead, without side data, with a check within a week. Either way
/// the check time is `now` and the next check is later.
pub proof fn lemma_mark_dead_counts_up(
    before: Seq<Instance>,
    after: Seq<Instance>,
    host: Seq<char>,
    now: i64,
    r: Result<(), StoreError>,
    i: int,
)
    requires
        verdict_post(before, after, host, Verdict::Dead, now, r),
        0 <= i < before.len(),
        before[i].hostname@ == host,
        before[i].lifecycle.wf(),
        before[i].lifecycle.side matches SideData::Dying { failed_checks_count, .. }
            && failed_checks_count < u64::MAX,
    ensures
        r is Ok,
        after[i].last_check == Some(now),
        now < after[i].next_check,
        before[i].lifecycle.side matches SideData::Dying { since, failed_checks_count } ==> {
            let c = (failed_checks_count + 1) as u64;
            &&& confirmed(c, since, now) ==> after[i].lifecycle == (Lifecycle {
                state: InstanceState::Dead,
                side: SideData::Empty,
            }) && after[i].next_check <= now + WEEK
            &&& !confirmed(c, since, now) ==> after[i].lifecycle == (Lifecycle {
                state: InstanceState::Dying,
                side: SideData::Dying { since, failed_checks_count: c },
            }) && after[i].next_check <= now + DAY
        },
{
    assert(has_host(before, host));
    assert(verdict_applied(before, after, i, Verdict::Dead, now));
}

/// A redirect recorded for a Moving instance whose redirect count is below the
/// largest value: towards its current target, the count rises by one and the
/// run keeps its start, with a check within a day, unless the raised count
/// confirms the run, in which case the instance is Moved to that target with a
/// check within a week; towards another target the run restarts at `now` with
/// a count of one. Either way the check time is `now` and the next check is later.
pub proof fn lemma_mark_moved_counts_up(
    before: Seq<Instance>,
    after: Seq<Instance>,
    host: Seq<char>,
    to: Seq<char>,
    now: i64,
    offset: i32,
    r: Result<(), StoreError>,
    i: int,
    t: u64,
)
    requires
        moved_post(before, after, host, to, now, offset, r),
        0 <= i < before.len(),
        t < before.len(),
        before[i].hostname@ == host,
        before[t as int].hostname@ == to,
        before[i].lifecycle.wf(),
        before[i].lifecycle.side matches SideData::Moving { redirects_count, .. }
            && redirects_count < u64::MAX,
    ensures
        r is Ok,
        after.len() == before.len(),
        after[i].last_check == Some(now),
        now < after[i].next_check,
        before[i].lifecycle.side matches SideData::Moving { since, redirects_count, moving_to } ==> {
            let c = (redirects_count + 1) as u64;
            &&& moving_to == t && confirmed(c, since, now) ==> after[i].lifecycle == (Lifecycle {
                state: InstanceState::Moved,
                side: SideData::Moved { moved_to: t },
            }) && after[i].next_check <= now + WEEK
            &&& moving_to == t && !confirmed(c, since, now) ==> after[i].lifecycle == (Lifecycle {
                state: InstanceState::Moving,
                side: SideData::Moving { since, redirects_count: c, moving_to },
            }) && after[i].next_check <= now + DAY
            &&& moving_to != t ==> after[i].lifecycle == (Lifecycle {
                state: InstanceState::Moving,
                side: SideData::Moving { since: now, redirects_count: 1, moving_to: t },
            }) && after[i].next_check <= now + DAY
        },
{
    assert(has_host(before, host));
    assert(has_host(before, to));
    assert(after[t as int].hostname@ == to);
    assert(verdict_applied(before, after, i, Verdict::Moved(t), now));
}

} // verus!
