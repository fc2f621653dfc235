use vstd::prelude::*;
use std::collections::HashMap;

verus! {

broadcast use vstd::std_specs::hash::group_hash_axioms;

/// FNV-1a offset basis.
pub const FNV_OFFSET: u64 = 0xcbf2_9ce4_8422_2325;

/// FNV-1a prime.
pub const FNV_PRIME: u64 = 0x0000_0100_0000_01b3;

/// FNV-1a over the code points of a hostname.
pub open spec fn name_hash(s: Seq<char>) -> u64
    decreases s.len(),
{
    if s.len() == 0 {
        FNV_OFFSET
    } else {
        (name_hash(s.drop_last()) ^ (s.last() as u32 as u64)).wrapping_mul(FNV_PRIME)
    }
}

/// The hash of a hostname, used to find its bucket.
pub fn hash_name(s: &String) -> (r: u64)
    ensures
        r == name_hash(s@),
{
    let text = s.as_str();
    let n = text.unicode_len();
    let mut h: u64 = FNV_OFFSET;
    let mut i: usize = 0;
    while i < n
        invariant
            n == s@.len(),
            text@ == s@,
            i <= n,
            h == name_hash(s@.subrange(0, i as int)),
        decreases n - i,
    {
        let c = text.get_char(i);
        assert(s@.subrange(0, i + 1).drop_last() == s@.subrange(0, i as int));
        h = (h ^ (c as u32 as u64)).wrapping_mul(FNV_PRIME);
        i += 1;
    }
    assert(s@.subrange(0, n as int) == s@);
    h
}

/// Ids of records grouped by the hash of their hostname.
pub struct HostIndex {
    buckets: HashMap<u64, Vec<u64>>,
}

impl HostIndex {
    /// The ids filed under hash `h`, in the order they were added.
    pub closed spec fn ids(&self, h: u64) -> Seq<u64> {
        if self.buckets@.contains_key(h) {
            self.buckets@[h]@
        } else {
            Seq::empty()
        }
    }

    /// An index with no ids.
    pub fn new() -> (r: HostIndex)
        ensures
            forall|h: u64| #[trigger] r.ids(h) == Seq::<u64>::empty(),
    {
        HostIndex { buckets: HashMap::new() }
    }

    /// The ids filed under `h`; `None` when there are none.
    pub fn lookup(&self, h: u64) -> (r: Option<&Vec<u64>>)
        ensures
            r matches Some(v) ==> v@ == self.ids(h),
            r is None ==> self.ids(h) == Seq::<u64>::empty(),
    {
        self.buckets.get(&h)
    }

    /// Files `id` under `h`.
    pub fn add(&mut self, h: u64, id: u64)
        ensures
            forall|g: u64| #[trigger] final(self).ids(g) == if g == h {
                old(self).ids(h).push(id)
            } else {
                old(self).ids(g)
            },
    {
        let mut bucket = match self.buckets.remove(&h) {
            Some(b) => b,
            None => Vec::new(),
        };
        bucket.push(id);
        self.buckets.insert(h, bucket);
    }
}

} // verus!
