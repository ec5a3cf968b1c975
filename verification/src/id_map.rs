//! A map keyed by object id, kept as a vector of entries in ascending id
//! order. The registry of bounding boxes and the registry of fighters are
//! such maps: besides lookups by id they are walked in full once per tick,
//! and the walk here visits every entry exactly once, in id order.
use vstd::prelude::*;

verus! {

pub open spec fn keys_ascending<V>(s: Seq<(u32, V)>) -> bool {
    forall|i: int, j: int| 0 <= i < j < s.len() ==> s[i].0 < s[j].0
}

pub open spec fn has_key<V>(s: Seq<(u32, V)>, k: u32) -> bool {
    exists|i: int| 0 <= i < s.len() && s[i].0 == k
}

/// The map that a sequence of entries with distinct keys stands for.
pub open spec fn entries_map<V>(s: Seq<(u32, V)>) -> Map<u32, V> {
    Map::new(
        |k: u32| has_key(s, k),
        |k: u32| s[choose|i: int| 0 <= i < s.len() && s[i].0 == k].1,
    )
}

/// In entries with ascending ids, the entry at position `i` is what the map
/// holds for its id.
pub proof fn lemma_entries_map_at<V>(s: Seq<(u32, V)>, i: int)
    requires
        keys_ascending(s),
        0 <= i < s.len(),
    ensures
        entries_map(s).contains_key(s[i].0),
        entries_map(s)[s[i].0] == s[i].1,
{
    let k = s[i].0;
    assert(has_key(s, k));
    let j = choose|j: int| 0 <= j < s.len() && s[j].0 == k;
    assert(j == i) by {
        if j < i {
            assert(s[j].0 < s[i].0);
        } else if j > i {
            assert(s[i].0 < s[j].0);
        }
    }
}

pub struct IdMap<V> {
    entries: Vec<(u32, V)>,
}

impl<V: Copy> IdMap<V> {
    /// The entries, in ascending id order.
    pub closed spec fn entries(self) -> Seq<(u32, V)> {
        self.entries@
    }

    pub closed spec fn wf(self) -> bool {
        keys_ascending(self.entries@)
    }

    pub open spec fn view(self) -> Map<u32, V> {
        entries_map(self.entries())
    }

    /// A well-formed map keeps its entries in ascending id order.
    pub proof fn lemma_wf(self)
        requires
            self.wf(),
        ensures
            keys_ascending(self.entries()),
    {
    }

    pub fn new() -> (m: Self)
        ensures
            m.wf(),
            m.entries() == Seq::<(u32, V)>::empty(),
            m@ == Map::<u32, V>::empty(),
    {
        let m = IdMap { entries: Vec::new() };
        assert(m@ =~= Map::<u32, V>::empty());
        m
    }

    pub fn len(&self) -> (n: usize)
        ensures
            n == self.entries().len(),
    {
        self.entries.len()
    }

    pub fn entry(&self, i: usize) -> (e: (u32, V))
        requires
            i < self.entries().len(),
        ensures
            e == self.entries()[i as int],
    {
        self.entries[i]
    }

    /// Position of `k` if it is a key, or else the position at which it
    /// would be inserted to keep the ids ascending.
    pub fn find(&self, k: u32) -> (r: Result<usize, usize>)
        requires
            self.wf(),
        ensures
            match r {
                Ok(i) => i < self.entries().len() && self.entries()[i as int].0 == k,
                Err(p) => {
                    &&& p <= self.entries().len()
                    &&& forall|j: int| 0 <= j < p ==> self.entries()[j].0 < k
                    &&& forall|j: int| p <= j < self.entries().len() ==> self.entries()[j].0 > k
                },
            },
    {
        let mut lo: usize = 0;
        let mut hi: usize = self.entries.len();
        while lo < hi
            invariant
                keys_ascending(self.entries@),
                lo <= hi <= self.entries@.len(),
                forall|j: int| 0 <= j < lo ==> self.entries@[j].0 < k,
                forall|j: int| hi <= j < self.entries@.len() ==> self.entries@[j].0 > k,
            decreases hi - lo,
        {
            let mid = lo + (hi - lo) / 2;
            let key = self.entries[mid].0;
            if key == k {
                return Ok(mid);
            } else if key < k {
                lo = mid + 1;
            } else {
                hi = mid;
            }
        }
        Err(lo)
    }

    pub fn get(&self, k: u32) -> (r: Option<V>)
        requires
            self.wf(),
        ensures
            r == (if self@.contains_key(k) {
                Some(self@[k])
            } else {
                None::<V>
            }),
    {
        match self.find(k) {
            Ok(i) => {
                proof {
                    lemma_entries_map_at(self.entries@, i as int);
                }
                Some(self.entries[i].1)
            },
            Err(p) => {
                assert(!has_key(self.entries@, k));
                None
            },
        }
    }

    pub fn insert(&mut self, k: u32, v: V)
        requires
            old(self).wf(),
        ensures
            final(self).wf(),
            final(self)@ == old(self)@.insert(k, v),
    {
        let ghost s0 = self.entries@;
        match self.find(k) {
            Ok(i) => {
                self.entries.set(i, (k, v));
                let ghost s1 = self.entries@;
                assert(s1 == s0.update(i as int, (k, v)));
                assert(keys_ascending(s1));
                assert(entries_map(s1) =~= entries_map(s0).insert(k, v)) by {
                    assert forall|key: u32| #[trigger] entries_map(s1).contains_key(key)
                        <==> entries_map(s0).insert(k, v).contains_key(key) by {
                        if has_key(s1, key) {
                            let j = choose|j: int| 0 <= j < s1.len() && s1[j].0 == key;
                            assert(s0[j].0 == s1[j].0);
                        }
                        if has_key(s0, key) {
                            let j = choose|j: int| 0 <= j < s0.len() && s0[j].0 == key;
                            assert(s1[j].0 == s0[j].0);
                        }
                        if key == k {
                            assert(s1[i as int].0 == k);
                        }
                    }
                    assert forall|key: u32| #[trigger] entries_map(s1).contains_key(key)
                        implies entries_map(s1)[key] == entries_map(s0).insert(k, v)[key] by {
                        let j = choose|j: int| 0 <= j < s1.len() && s1[j].0 == key;
                        lemma_entries_map_at(s1, j);
                        if j != i {
                            lemma_entries_map_at(s0, j);
                        }
                    }
                }
            },
            Err(p) => {
                self.entries.insert(p, (k, v));
                let ghost s1 = self.entries@;
                assert(s1 == s0.insert(p as int, (k, v)));
                assert(keys_ascending(s1)) by {
                    assert forall|a: int, b: int| 0 <= a < b < s1.len() implies s1[a].0
                        < s1[b].0 by {
                        if b < p {
                        } else if a < p && b == p {
                        } else if a < p {
                            assert(s1[b] == s0[b - 1]);
                        } else if a == p {
                            assert(s1[b] == s0[b - 1]);
                        } else {
                            assert(s1[a] == s0[a - 1]);
                            assert(s1[b] == s0[b - 1]);
                        }
                    }
                }
                assert(entries_map(s1) =~= entries_map(s0).insert(k, v)) by {
                    assert forall|key: u32| #[trigger] entries_map(s1).contains_key(key)
                        <==> entries_map(s0).insert(k, v).contains_key(key) by {
                        if has_key(s1, key) {
                            let j = choose|j: int| 0 <= j < s1.len() && s1[j].0 == key;
                            if j < p {
                                assert(s0[j].0 == key);
                            } else if j > p {
                                assert(s0[j - 1].0 == key);
                            }
                        }
                        if has_key(s0, key) {
                            let j = choose|j: int| 0 <= j < s0.len() && s0[j].0 == key;
                            if j < p {
                                assert(s1[j].0 == key);
                            } else {
                                assert(s1[j + 1].0 == key);
                            }
                        }
                        if key == k {
                            assert(s1[p as int].0 == k);
                        }
                    }
                    assert forall|key: u32| #[trigger] entries_map(s1).contains_key(key)
                        implies entries_map(s1)[key] == entries_map(s0).insert(k, v)[key] by {
                        let j = choose|j: int| 0 <= j < s1.len() && s1[j].0 == key;
                        lemma_entries_map_at(s1, j);
                        if j < p {
                            lemma_entries_map_at(s0, j);
                        } else if j > p {
                            lemma_entries_map_at(s0, j - 1);
                        }
                    }
                }
            },
        }
    }

    pub fn remove(&mut self, k: u32)
        requires
            old(self).wf(),
        ensures
            final(self).wf(),
            final(self)@ == old(self)@.remove(k),
    {
        let ghost s0 = self.entries@;
        match self.find(k) {
            Ok(i) => {
                self.entries.remove(i);
                let ghost s1 = self.entries@;
                assert(s1 == s0.remove(i as int));
                assert(keys_ascending(s1)) by {
                    assert forall|a: int, b: int| 0 <= a < b < s1.len() implies s1[a].0
                        < s1[b].0 by {
                        if b < i {
                        } else if a < i {
                            assert(s1[b] == s0[b + 1]);
                        } else {
                            assert(s1[a] == s0[a + 1]);
                            assert(s1[b] == s0[b + 1]);
                        }
                    }
                }
                assert(entries_map(s1) =~= entries_map(s0).remove(k)) by {
                    assert forall|key: u32| #[trigger] entries_map(s1).contains_key(key)
                        <==> entries_map(s0).remove(k).contains_key(key) by {
                        if has_key(s1, key) {
                            let j = choose|j: int| 0 <= j < s1.len() && s1[j].0 == key;
                            if j < i {
                                assert(s0[j].0 == key);
                                assert(s0[j].0 < s0[i as int].0);
                            } else {
                                assert(s0[j + 1].0 == key);
                                assert(s0[i as int].0 < s0[j + 1].0);
                            }
                        }
                        if has_key(s0, key) && key != k {
                            let j = choose|j: int| 0 <= j < s0.len() && s0[j].0 == key;
                            if j < i {
                                assert(s1[j].0 == key);
                            } else {
                                assert(j != i);
                                assert(s1[j - 1].0 == key);
                            }
                        }
                    }
                    assert forall|key: u32| #[trigger] entries_map(s1).contains_key(key)
                        implies entries_map(s1)[key] == entries_map(s0).remove(k)[key] by {
                        let j = choose|j: int| 0 <= j < s1.len() && s1[j].0 == key;
                        lemma_entries_map_at(s1, j);
                        if j < i {
                            lemma_entries_map_at(s0, j);
                        } else {
                            lemma_entries_map_at(s0, j + 1);
                        }
                    }
                }
            },
            Err(p) => {
                assert(!has_key(s0, k));
                assert(entries_map(s0) =~= entries_map(s0).remove(k));
            },
        }
    }

    /// Empties the map.
    pub fn clear(&mut self)
        ensures
            final(self).wf(),
            final(self).entries() == Seq::<(u32, V)>::empty(),
            final(self)@ == Map::<u32, V>::empty(),
    {
        self.entries = Vec::new();
        assert(self@ =~= Map::<u32, V>::empty());
    }
}

} // verus!
