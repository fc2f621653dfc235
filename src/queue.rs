use vstd::prelude::*;

verus! {

/// An entry of the due queue: a scheduled time and the id it belongs to.
pub type Due = (i64, u64);

/// Entries are ordered by time, then by id.
pub open spec fn due_le(a: Due, b: Due) -> bool {
    a.0 < b.0 || (a.0 == b.0 && a.1 <= b.1)
}

/// Position of the parent of position `k` in a binary heap.
pub open spec fn parent(k: int) -> int {
    (k - 1) / 2
}

/// Every entry is no earlier than its parent.
pub open spec fn heap_ordered(s: Seq<Due>) -> bool {
    forall|k: int| 0 < k < s.len() ==> due_le(#[trigger] s[parent(k)], s[k])
}

/// In a heap-ordered sequence the first entry is the least.
proof fn lemma_first_is_least(s: Seq<Due>, k: int)
    requires
        heap_ordered(s),
        0 <= k < s.len(),
    ensures
        due_le(s[0], s[k]),
    decreases k,
{
    if k > 0 {
        assert(due_le(s[parent(k)], s[k]));
        lemma_first_is_least(s, parent(k));
    }
}

/// A binary min-heap of scheduled times.
pub struct DueQueue {
    heap: Vec<Due>,
}

impl DueQueue {
    /// The entries, in heap order.
    pub closed spec fn entries(&self) -> Seq<Due> {
        self.heap@
    }

    /// The heap property holds.
    pub closed spec fn wf(&self) -> bool {
        heap_ordered(self.heap@)
    }

    /// An empty queue.
    pub fn new() -> (r: DueQueue)
        ensures
            r.wf(),
            r.entries().len() == 0,
    {
        DueQueue { heap: Vec::new() }
    }

    /// The least entry, if any.
    pub fn peek(&self) -> (r: Option<Due>)
        requires
            self.wf(),
        ensures
            r is None <==> self.entries().len() == 0,
            r matches Some(e) ==> e == self.entries()[0] && self.entries().contains(e) && forall|k: int|
                0 <= k < self.entries().len() ==> due_le(e, #[trigger] self.entries()[k]),
    {
        if self.heap.len() == 0 {
            None
        } else {
            proof {
                assert forall|k: int| 0 <= k < self.entries().len() implies due_le(self.heap@[0], #[trigger] self.entries()[k]) by {
                    lemma_first_is_least(self.heap@, k);
                }
                assert(self.heap@[0] == self.entries()[0]);
            }
            Some(self.heap[0])
        }
    }

    /// Adds an entry.
    pub fn push(&mut self, e: Due)
        requires
            old(self).wf(),
        ensures
            final(self).wf(),
            final(self).entries().contains(e),
            forall|x: Due| old(self).entries().contains(x) ==> final(self).entries().contains(x),
            final(self).entries().len() == old(self).entries().len() + 1,
    {
        self.heap.push(e);
        let ghost pushed = self.heap@;
        let mut k: usize = self.heap.len() - 1;
        while k > 0
            invariant
                0 <= k < self.heap@.len(),
                self.heap@.len() == pushed.len(),
                self.heap@.to_multiset() == pushed.to_multiset(),
                forall|m: int| 0 < m < self.heap@.len() && m != k ==> due_le(#[trigger] self.heap@[parent(m)], self.heap@[m]),
                k > 0 ==> forall|m: int|
                    0 < m < self.heap@.len() && parent(m) == k ==> due_le(self.heap@[parent(k as int)], #[trigger] self.heap@[m]),
            ensures
                self.heap@.len() == pushed.len(),
                self.heap@.to_multiset() == pushed.to_multiset(),
                heap_ordered(self.heap@),
            decreases k,
        {
            let p: usize = (k - 1) / 2;
            let a = self.heap[p];
            let b = self.heap[k];
            if due_le_exec(a, b) {
                assert(heap_ordered(self.heap@)) by {
                    assert(self.heap@[parent(k as int)] == a);
                }
                break;
            }
            let ghost before = self.heap@;
            self.heap.set(p, b);
            self.heap.set(k, a);
            proof {
                assert(self.heap@ == before.update(p as int, b).update(k as int, a));
                vstd::seq_lib::lemma_multiset_commutative(before, Seq::<Due>::empty());
                assert(self.heap@.to_multiset() == before.to_multiset()) by {
                    broadcast use vstd::seq_lib::group_to_multiset_ensures;
                    assert(self.heap@ =~= before.update(p as int, b).update(k as int, a));
                }
            }
            k = p;
        }
        proof {
            broadcast use vstd::seq_lib::group_to_multiset_ensures;
            assert(pushed == old(self).heap@.push(e));
            assert(pushed[pushed.len() - 1] == e);
            assert(pushed.contains(e));
            assert(self.heap@.to_multiset().count(e) > 0);
            assert forall|x: Due| old(self).entries().contains(x) implies self.entries().contains(x) by {
                let i = choose|i: int| 0 <= i < old(self).heap@.len() && old(self).heap@[i] == x;
                assert(pushed[i] == x);
                assert(pushed.contains(x));
                assert(self.heap@.to_multiset().count(x) > 0);
            }
        }
    }

    /// Removes the least entry and returns it.
    pub fn pop(&mut self) -> (r: Option<Due>)
        requires
            old(self).wf(),
        ensures
            final(self).wf(),
            r is None <==> old(self).entries().len() == 0,
            r is None ==> final(self).entries() == old(self).entries(),
            r matches Some(e) ==> {
                &&& e == old(self).entries()[0]
                &&& final(self).entries().len() == old(self).entries().len() - 1
                &&& forall|x: Due| #[trigger] old(self).entries().contains(x) && x != e ==> final(self).entries().contains(x)
            },
    {
        if self.heap.len() == 0 {
            return None;
        }
        let top = self.heap[0];
        let ghost start = self.heap@;
        let last = self.heap.pop().unwrap();
        if self.heap.len() == 0 {
            proof {
                assert forall|x: Due| #[trigger] start.contains(x) && x != top implies self.entries().contains(x) by {
                    let i = choose|i: int| 0 <= i < start.len() && start[i] == x;
                    assert(i == 0);
                }
            }
            return Some(top);
        }
        self.heap.set(0, last);
        let ghost moved = self.heap@;
        proof {
            assert(moved =~= start.drop_last().update(0, start.last()));
        }
        let n = self.heap.len();
        let mut k: usize = 0;
        loop
            invariant
                n == self.heap@.len(),
                n == moved.len(),
                k < n,
                self.heap@.to_multiset() == moved.to_multiset(),
                forall|m: int| 0 < m < n && parent(m) != k ==> due_le(#[trigger] self.heap@[parent(m)], self.heap@[m]),
                k > 0 ==> forall|m: int|
                    0 < m < n && parent(m) == k ==> due_le(self.heap@[parent(k as int)], #[trigger] self.heap@[m]),
            ensures
                self.heap@.len() == moved.len(),
                self.heap@.to_multiset() == moved.to_multiset(),
                heap_ordered(self.heap@),
            decreases n - k,
        {
            let l: usize = if k < n / 2 { 2 * k + 1 } else { n };
            if l >= n {
                assert(heap_ordered(self.heap@)) by {
                    assert forall|m: int| 0 < m < n implies parent(m) != k by {}
                }
                break;
            }
            let c: usize = if l + 1 < n && !due_le_exec(self.heap[l], self.heap[l + 1]) {
                l + 1
            } else {
                l
            };
            let a = self.heap[k];
            let b = self.heap[c];
            if due_le_exec(a, b) {
                assert(heap_ordered(self.heap@)) by {
                    assert forall|m: int| 0 < m < n implies due_le(#[trigger] self.heap@[parent(m)], self.heap@[m]) by {
                        if parent(m) == k {
                            assert(m == l || m == l + 1);
                        }
                    }
                }
                break;
            }
            let ghost before = self.heap@;
            self.heap.set(k, b);
            self.heap.set(c, a);
            proof {
                assert(self.heap@ =~= before.update(k as int, b).update(c as int, a));
                broadcast use vstd::seq_lib::group_to_multiset_ensures;
                assert forall|m: int| 0 < m < n && parent(m) != c implies due_le(#[trigger] self.heap@[parent(m)], self.heap@[m]) by {
                    if parent(m) == k {
                        assert(m == l || m == l + 1);
                    }
                }
            }
            k = c;
        }
        proof {
            broadcast use vstd::seq_lib::group_to_multiset_ensures;
            assert forall|x: Due| #[trigger] start.contains(x) && x != top implies self.entries().contains(x) by {
                let i = choose|i: int| 0 <= i < start.len() && start[i] == x;
                if i == start.len() - 1 {
                    assert(moved[0] == x);
                } else {
                    assert(i != 0);
                    assert(moved[i] == x);
                }
                assert(moved.contains(x));
                assert(self.heap@.to_multiset().count(x) > 0);
            }
        }
        Some(top)
    }
}

/// Whether `a` is no later than `b`.
fn due_le_exec(a: Due, b: Due) -> (r: bool)
    ensures
        r == due_le(a, b),
{
    a.0 < b.0 || (a.0 == b.0 && a.1 <= b.1)
}

} // verus!
