//! A bounded cache of lookups, ordered by recency, for one logical request.
use vstd::prelude::*;
use crate::query::{QueryKey, QueryKeyView};

verus! {

pub open spec fn keys_of<V>(s: Seq<(QueryKey, V)>) -> Seq<QueryKeyView> {
    s.map_values(|e: (QueryKey, V)| e.0@)
}

/// The position of the entry for `k`, if there is one.
pub open spec fn holds_key<V>(s: Seq<(QueryKey, V)>, k: QueryKeyView) -> bool {
    exists|i: int| 0 <= i < s.len() && s[i].0@ == k
}

/// A cache that keeps at most `capacity` entries, one per key, and forgets
/// the least recently used first.
pub struct LruCache<V> {
    capacity: usize,
    entries: Vec<(QueryKey, V)>,
}

impl<V> LruCache<V> {
    /// The entries, least recently used first.
    pub closed spec fn entries(&self) -> Seq<(QueryKey, V)> {
        self.entries@
    }

    pub closed spec fn capacity(&self) -> nat {
        self.capacity as nat
    }

    pub open spec fn wf(&self) -> bool {
        &&& 0 < self.capacity()
        &&& self.entries().len() <= self.capacity()
        &&& keys_of(self.entries()).no_duplicates()
    }

    pub fn new(capacity: usize) -> (r: LruCache<V>)
        requires
            capacity > 0,
        ensures
            r.wf(),
            r.capacity() == capacity,
            r.entries().len() == 0,
    {
        LruCache { capacity, entries: Vec::new() }
    }

    fn position(&self, key: &QueryKey) -> (r: Option<usize>)
        ensures
            match r {
                Some(i) => i < self.entries@.len() && self.entries@[i as int].0@ == key@,
                None => !holds_key(self.entries@, key@),
            },
    {
        let mut i: usize = 0;
        while i < self.entries.len()
            invariant
                i <= self.entries@.len(),
                forall|j: int| 0 <= j < i ==> self.entries@[j].0@ != key@,
            decreases self.entries@.len() - i,
        {
            if self.entries[i].0.same(key) {
                return Some(i);
            }
            i = i + 1;
        }
        None
    }

    /// Marks the entry for `key` as the most recently used; says whether
    /// there is one.
    pub fn touch(&mut self, key: &QueryKey) -> (r: bool)
        requires
            old(self).wf(),
        ensures
            final(self).wf(),
            final(self).capacity() == old(self).capacity(),
            r == holds_key(old(self).entries(), key@),
            !r ==> final(self).entries() == old(self).entries(),
            r ==> exists|i: int|
                0 <= i < old(self).entries().len() && old(self).entries()[i].0@ == key@
                    && final(self).entries() == old(self).entries().remove(i).push(
                    old(self).entries()[i],
                ),
    {
        match self.position(key) {
            Some(i) => {
                let ghost before = self.entries@;
                let e = self.entries.remove(i);
                self.entries.push(e);
                proof {
                    assert(keys_of(self.entries@) =~= keys_of(before).remove(i as int).push(before[i as int].0@));
                    assert forall|a: int, b: int|
                        0 <= a < b < keys_of(self.entries@).len() implies keys_of(self.entries@)[a]
                        != keys_of(self.entries@)[b] by {
                        let ia = if a < i { a } else { a + 1 };
                        let ib = if b == keys_of(self.entries@).len() - 1 { i as int } else if b < i { b } else { b + 1 };
                        assert(keys_of(before)[ia] == keys_of(self.entries@)[a]);
                        assert(keys_of(before)[ib] == keys_of(self.entries@)[b]);
                    }
                }
                true
            },
            None => false,
        }
    }

    /// The value cached for `key`, with no change of recency.
    pub fn peek(&self, key: &QueryKey) -> (r: Option<&V>)
        ensures
            r is Some <==> holds_key(self.entries(), key@),
            r is Some ==> exists|i: int|
                0 <= i < self.entries().len() && self.entries()[i].0@ == key@ && *r->0
                    == self.entries()[i].1,
    {
        match self.position(key) {
            Some(i) => {
                assert(self.entries()[i as int].0@ == key@);
                Some(&self.entries[i].1)
            },
            None => None,
        }
    }

    /// Caches `value` for `key` as the most recently used entry, replacing an
    /// earlier value for the key and forgetting the least recently used entry
    /// when the cache is full.
    pub fn insert(&mut self, key: QueryKey, value: V)
        requires
            old(self).wf(),
        ensures
            final(self).wf(),
            final(self).capacity() == old(self).capacity(),
            final(self).entries().last() == (key, value),
            holds_key(old(self).entries(), key@) ==> exists|i: int|
                0 <= i < old(self).entries().len() && old(self).entries()[i].0@ == key@
                    && final(self).entries() == old(self).entries().remove(i).push((key, value)),
            !holds_key(old(self).entries(), key@) && old(self).entries().len() < old(self).capacity()
                ==> final(self).entries() == old(self).entries().push((key, value)),
            !holds_key(old(self).entries(), key@) && old(self).entries().len() == old(self).capacity()
                ==> final(self).entries() == old(self).entries().drop_first().push((key, value)),
    {
        let ghost k = key@;
        let ghost start = self.entries@;
        let ghost mut at: int = 0;
        match self.position(&key) {
            Some(i) => {
                let ghost before = self.entries@;
                proof {
                    at = i as int;
                }
                self.entries.remove(i);
                proof {
                    assert(keys_of(self.entries@) =~= keys_of(before).remove(i as int));
                    assert forall|j: int| 0 <= j < self.entries@.len() implies self.entries@[j].0@ != k by {
                        let jj = if j < i { j } else { j + 1 };
                        assert(keys_of(before)[jj] == self.entries@[j].0@);
                        assert(keys_of(before)[i as int] == k);
                    }
                    assert forall|a: int, b: int|
                        0 <= a < b < keys_of(self.entries@).len() implies keys_of(self.entries@)[a]
                        != keys_of(self.entries@)[b] by {
                        let ia = if a < i { a } else { a + 1 };
                        let ib = if b < i { b } else { b + 1 };
                        assert(keys_of(before)[ia] == keys_of(self.entries@)[a]);
                        assert(keys_of(before)[ib] == keys_of(self.entries@)[b]);
                    }
                }
            },
            None => {
                if self.entries.len() == self.capacity {
                    let ghost before = self.entries@;
                    self.entries.remove(0);
                    proof {
                        assert(self.entries@ =~= before.drop_first());
                        assert(keys_of(self.entries@) =~= keys_of(before).drop_first());
                        assert forall|a: int, b: int|
                            0 <= a < b < keys_of(self.entries@).len() implies keys_of(self.entries@)[a]
                            != keys_of(self.entries@)[b] by {
                            assert(keys_of(before)[a + 1] == keys_of(self.entries@)[a]);
                            assert(keys_of(before)[b + 1] == keys_of(self.entries@)[b]);
                        }
                        assert forall|j: int| 0 <= j < self.entries@.len() implies self.entries@[j].0@ != k by {
                            assert(before[j + 1] == self.entries@[j]);
                        }
                    }
                }
            },
        }
        let ghost mid = self.entries@;
        self.entries.push((key, value));
        proof {
            if holds_key(start, k) {
                assert(self.entries@ == start.remove(at).push((key, value)));
                assert(start[at].0@ == k);
            }
            assert(keys_of(self.entries@) =~= keys_of(mid).push(k));
            assert forall|a: int, b: int|
                0 <= a < b < keys_of(self.entries@).len() implies keys_of(self.entries@)[a]
                != keys_of(self.entries@)[b] by {
                if b == keys_of(self.entries@).len() - 1 {
                    assert(keys_of(mid)[a] == mid[a].0@);
                } else {
                    assert(keys_of(mid)[a] == keys_of(self.entries@)[a]);
                    assert(keys_of(mid)[b] == keys_of(self.entries@)[b]);
                }
            }
        }
    }

    /// The keys to fetch: each requested key that the cache does not hold,
    /// once, in the order of its first request.
    pub fn missing_keys(&self, keys: &Vec<QueryKey>) -> (r: Vec<QueryKey>)
        ensures
            forall|j: int|
                0 <= j < r@.len() ==> !holds_key(self.entries(), #[trigger] r@[j]@) && exists|i: int|
                    0 <= i < keys@.len() && keys@[i]@ == r@[j]@,
            forall|i: int|
                0 <= i < keys@.len() && !holds_key(self.entries(), #[trigger] keys@[i]@) ==> exists|
                    j: int,
                | 0 <= j < r@.len() && r@[j]@ == keys@[i]@,
            forall|a: int, b: int| 0 <= a < b < r@.len() ==> r@[a]@ != r@[b]@,
    {
        let mut r: Vec<QueryKey> = Vec::new();
        let mut i: usize = 0;
        while i < keys.len()
            invariant
                i <= keys@.len(),
                forall|j: int|
                    0 <= j < r@.len() ==> !holds_key(self.entries(), #[trigger] r@[j]@) && exists|
                        t: int,
                    | 0 <= t < i && keys@[t]@ == r@[j]@,
                forall|t: int|
                    0 <= t < i && !holds_key(self.entries(), #[trigger] keys@[t]@) ==> exists|j: int|
                        0 <= j < r@.len() && r@[j]@ == keys@[t]@,
                forall|a: int, b: int| 0 <= a < b < r@.len() ==> r@[a]@ != r@[b]@,
            decreases keys@.len() - i,
        {
            let key = &keys[i];
            if self.position(key).is_none() {
                let mut seen = false;
                let mut j: usize = 0;
                while j < r.len()
                    invariant
                        j <= r@.len(),
                        seen ==> exists|t: int| 0 <= t < r@.len() && r@[t]@ == key@,
                        !seen ==> forall|t: int| 0 <= t < j ==> r@[t]@ != key@,
                    decreases r@.len() - j,
                {
                    if r[j].same(key) {
                        seen = true;
                    }
                    j = j + 1;
                }
                if !seen {
                    let ghost prev = r@;
                    r.push(key.duplicate());
                    assert forall|j: int| 0 <= j < prev.len() implies r@[j] == prev[j] by {}
                    assert(r@[prev.len() as int]@ == keys@[i as int]@);
                }
            }
            i = i + 1;
        }
        assert forall|j: int| 0 <= j < r@.len() implies !holds_key(self.entries(), #[trigger] r@[j]@)
            && exists|t: int| 0 <= t < keys@.len() && keys@[t]@ == r@[j]@ by {
            let t = choose|t: int| 0 <= t < i && keys@[t]@ == r@[j]@;
        }
        r
    }

    pub fn len(&self) -> (r: usize)
        ensures
            r == self.entries().len(),
    {
        self.entries.len()
    }
}

} // verus!
