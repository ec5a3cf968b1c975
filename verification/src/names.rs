//! The ids of the scripted objects, grouped by the name of their script, so
//! that a script can look up every object of a kind.
use vstd::prelude::*;
use crate::collision::Id;
use crate::text::str_eq;

verus! {

pub open spec fn names_distinct(s: Seq<(String, Vec<Id>)>) -> bool {
    forall|i: int, j: int| 0 <= i < j < s.len() ==> s[i].0@ != s[j].0@
}

pub open spec fn has_name(s: Seq<(String, Vec<Id>)>, name: Seq<char>) -> bool {
    exists|i: int| 0 <= i < s.len() && s[i].0@ == name
}

/// The map from names to id lists that a sequence of entries with distinct
/// names stands for.
pub open spec fn names_map(s: Seq<(String, Vec<Id>)>) -> Map<Seq<char>, Seq<Id>> {
    Map::new(
        |name: Seq<char>| has_name(s, name),
        |name: Seq<char>| s[choose|i: int| 0 <= i < s.len() && s[i].0@ == name].1@,
    )
}

proof fn lemma_names_map_at(s: Seq<(String, Vec<Id>)>, i: int)
    requires
        names_distinct(s),
        0 <= i < s.len(),
    ensures
        names_map(s).contains_key(s[i].0@),
        names_map(s)[s[i].0@] == s[i].1@,
{
    let name = s[i].0@;
    assert(has_name(s, name));
    let j = choose|j: int| 0 <= j < s.len() && s[j].0@ == name;
    assert(j == i) by {
        if j < i {
            assert(s[j].0@ != s[i].0@);
        } else if j > i {
            assert(s[i].0@ != s[j].0@);
        }
    }
}

/// Object ids by script name, each list in the order the ids were added.
pub struct ObjectNames {
    entries: Vec<(String, Vec<Id>)>,
}

impl ObjectNames {
    pub closed spec fn wf(self) -> bool {
        names_distinct(self.entries@)
    }

    pub closed spec fn view(self) -> Map<Seq<char>, Seq<Id>> {
        names_map(self.entries@)
    }

    pub fn new() -> (r: Self)
        ensures
            r.wf(),
            r@ == Map::<Seq<char>, Seq<Id>>::empty(),
    {
        let r = ObjectNames { entries: Vec::new() };
        assert(r@ =~= Map::<Seq<char>, Seq<Id>>::empty());
        r
    }

    /// The position of the entry for `name`, if there is one.
    fn position(&self, name: &str) -> (r: Option<usize>)
        requires
            self.wf(),
        ensures
            match r {
                Some(i) => i < self.entries@.len() && self.entries@[i as int].0@ == name@,
                None => !has_name(self.entries@, name@),
            },
    {
        let n = self.entries.len();
        let mut i: usize = 0;
        while i < n
            invariant
                n == self.entries@.len(),
                i <= n,
                forall|j: int| 0 <= j < i ==> self.entries@[j].0@ != name@,
            decreases n - i,
        {
            if str_eq(self.entries[i].0.as_str(), name) {
                return Some(i);
            }
            i = i + 1;
        }
        None
    }

    /// Adds `id` at the end of the list of `name`, starting the list if
    /// `name` has none.
    pub fn add(&mut self, name: String, id: Id)
        requires
            old(self).wf(),
        ensures
            final(self).wf(),
            final(self)@ == old(self)@.insert(
                name@,
                if old(self)@.contains_key(name@) {
                    old(self)@[name@].push(id)
                } else {
                    seq![id]
                },
            ),
    {
        let ghost s0 = self.entries@;
        match self.position(name.as_str()) {
            Some(i) => {
                let (n, mut ids) = self.entries.remove(i);
                ids.push(id);
                self.entries.insert(i, (n, ids));
                proof {
                    lemma_names_map_at(s0, i as int);
                    let s1 = self.entries@;
                    assert(s1 == s0.update(i as int, (s0[i as int].0, ids)));
                    assert(names_distinct(s1)) by {
                        assert forall|a: int, b: int| 0 <= a < b < s1.len() implies s1[a].0@ != s1[b].0@ by {
                            assert(s1[a].0@ == s0[a].0@);
                            assert(s1[b].0@ == s0[b].0@);
                        }
                    }
                    assert forall|k: Seq<char>| has_name(s1, k) == has_name(s0, k) by {
                        if has_name(s1, k) {
                            let j = choose|j: int| 0 <= j < s1.len() && s1[j].0@ == k;
                            assert(s0[j].0@ == k);
                        }
                        if has_name(s0, k) {
                            let j = choose|j: int| 0 <= j < s0.len() && s0[j].0@ == k;
                            assert(s1[j].0@ == k);
                        }
                    }
                    assert forall|k: Seq<char>| #[trigger] names_map(s1).contains_key(k) && k != name@ implies names_map(s1)[k]
                        == names_map(s0)[k] by {
                        let j = choose|j: int| 0 <= j < s1.len() && s1[j].0@ == k;
                        lemma_names_map_at(s1, j);
                        lemma_names_map_at(s0, j);
                    }
                    lemma_names_map_at(s1, i as int);
                    assert(names_map(s1) =~= names_map(s0).insert(name@, names_map(s0)[name@].push(id)));
                }
            },
            None => {
                let mut ids: Vec<Id> = Vec::new();
                ids.push(id);
                self.entries.push((name, ids));
                proof {
                    let s1 = self.entries@;
                    let last = s0.len() as int;
                    assert(names_distinct(s1)) by {
                        assert forall|a: int, b: int| 0 <= a < b < s1.len() implies s1[a].0@ != s1[b].0@ by {
                            if b == last {
                                assert(s1[a] == s0[a]);
                            } else {
                                assert(s1[a] == s0[a]);
                                assert(s1[b] == s0[b]);
                            }
                        }
                    }
                    assert forall|k: Seq<char>| #[trigger] names_map(s1).contains_key(k) && k != s1[last].0@ implies names_map(s1)[k]
                        == names_map(s0)[k] && names_map(s0).contains_key(k) by {
                        let j = choose|j: int| 0 <= j < s1.len() && s1[j].0@ == k;
                        assert(j != last);
                        assert(s1[j] == s0[j]);
                        lemma_names_map_at(s1, j);
                        lemma_names_map_at(s0, j);
                    }
                    assert forall|k: Seq<char>| #[trigger] names_map(s0).contains_key(k) implies names_map(s1).contains_key(k) by {
                        let j = choose|j: int| 0 <= j < s0.len() && s0[j].0@ == k;
                        assert(s1[j] == s0[j]);
                    }
                    lemma_names_map_at(s1, last);
                    assert(s1[last].1@ =~= seq![id]);
                    assert(names_map(s1) =~= names_map(s0).insert(name@, seq![id]));
                }
            },
        }
    }

    /// The ids added under `name`, oldest first, if any were.
    pub fn ids_of(&self, name: &str) -> (r: Option<Vec<Id>>)
        requires
            self.wf(),
        ensures
            match r {
                Some(v) => self@.contains_key(name@) && v@ == self@[name@],
                None => !self@.contains_key(name@),
            },
    {
        match self.position(name) {
            Some(i) => {
                let v = self.entries[i].1.clone();
                proof {
                    lemma_names_map_at(self.entries@, i as int);
                    assert(v@ =~= self.entries@[i as int].1@);
                }
                Some(v)
            },
            None => None,
        }
    }
}

/// Adding an id to a name keeps every list of the other names, and the
/// list of that name ends with the id: a lookup after an add gives back
/// what was added.
pub proof fn lemma_add_then_lookup(m: Map<Seq<char>, Seq<Id>>, name: Seq<char>, id: Id, other: Seq<char>)
    requires
        other != name,
    ensures
        ({
            let m2 = m.insert(name, if m.contains_key(name) { m[name].push(id) } else { seq![id] });
            &&& m2.contains_key(name)
            &&& m2[name].last() == id
            &&& m2[name].len() == (if m.contains_key(name) { m[name].len() + 1 } else { 1 })
            &&& m2.contains_key(other) == m.contains_key(other)
            &&& m.contains_key(other) ==> m2[other] == m[other]
        }),
{
}

} // verus!
