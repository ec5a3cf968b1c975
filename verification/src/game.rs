//! The game loop's bookkeeping: the command queues through which objects
//! talk to the loop and to each other, the table of live objects ordered by
//! id, and the routing of each command the loop reads.
use vstd::prelude::*;
use crate::collision::Id;
use crate::world::{TriggerId, World};
use vstd::multiset::Multiset;

verus! {

broadcast use vstd::seq_lib::group_to_multiset_ensures, vstd::multiset::group_multiset_axioms;

/// A first-in first-out queue of commands. Any number of senders issue
/// commands; the owner reads them all at once.
pub struct CommandBuffer<A> {
    queue: Vec<A>,
}

impl<A> CommandBuffer<A> {
    /// The commands issued and not yet read, oldest first.
    pub closed spec fn view(self) -> Seq<A> {
        self.queue@
    }

    pub fn new() -> (r: Self)
        ensures
            r@ == Seq::<A>::empty(),
    {
        CommandBuffer { queue: Vec::new() }
    }

    pub fn issue(&mut self, command: A)
        ensures
            final(self)@ == old(self)@.push(command),
    {
        self.queue.push(command);
    }

    /// Takes every command issued so far, oldest first, and empties the
    /// queue.
    pub fn read_buffer(&mut self) -> (r: Vec<A>)
        ensures
            r@ == old(self)@,
            final(self)@ == Seq::<A>::empty(),
    {
        let mut taken: Vec<A> = Vec::new();
        std::mem::swap(&mut taken, &mut self.queue);
        taken
    }
}

/// The queue keeps order: what was issued first is read first, and a read
/// gives back exactly what was issued since the previous read.
pub proof fn lemma_command_buffer_fifo<A>(before: Seq<A>, a: A, b: A)
    ensures
        before.push(a).push(b) == before + seq![a, b],
        before.push(a).push(b)[before.len() as int] == a,
        before.push(a).push(b)[before.len() + 1int] == b,
{
    assert(before.push(a).push(b) =~= before + seq![a, b]);
}

/// A message to one object. `C` is a collision, `P` a point of the world.
#[derive(Clone, Copy, PartialEq, Eq, Debug)]
pub enum ObjMessage<C, P> {
    MCollision(C),
    MPlayerStartGrapple(P),
    MPlayerEndGrapple,
    MTrigger,
}

/// A command for the game loop. `G` is a game object, `M` a message to an
/// object and `F` a force.
pub enum MetaCommand<G, M, F> {
    RestartGame,
    RemoveObject(Id),
    CreateObject(G),
    MessageObject(Id, M),
    ApplyForce(Id, F),
    Dialogue(u32, String),
    CollectCrown,
    Trigger(TriggerId),
}

impl<G, M, F> CommandBuffer<MetaCommand<G, M, F>> {
    /// Sends `msg` to object `id` through the game loop.
    pub fn mess_obj(&mut self, id: Id, msg: M)
        ensures
            final(self)@ == old(self)@.push(MetaCommand::MessageObject(id, msg)),
    {
        self.issue(MetaCommand::MessageObject(id, msg));
    }
}

pub open spec fn ids_sorted<T>(s: Seq<(Id, T)>) -> bool {
    forall|i: int, j: int| 0 <= i < j < s.len() ==> s[i].0 <= s[j].0
}

/// `sub` is `s` with some positions taken out: `kept` lists, in ascending
/// order, the positions of `s` that remain, and `sub` holds their entries in
/// that order.
pub open spec fn kept_in_order<T>(sub: Seq<(Id, T)>, s: Seq<(Id, T)>, kept: Seq<int>) -> bool {
    &&& kept.len() == sub.len()
    &&& forall|k: int| 0 <= k < kept.len() ==> 0 <= #[trigger] kept[k] < s.len() && sub[k] == s[kept[k]]
    &&& forall|a: int, b: int| 0 <= a < b < kept.len() ==> kept[a] < kept[b]
}

pub open spec fn is_subsequence<T>(sub: Seq<(Id, T)>, s: Seq<(Id, T)>) -> bool {
    exists|kept: Seq<int>| kept_in_order(sub, s, kept)
}

/// The ids of the entries of `s`, in order.
pub open spec fn id_seq<T>(s: Seq<(Id, T)>) -> Seq<Id> {
    s.map_values(|e: (Id, T)| e.0)
}

/// The requests of `ids` that find an object when a table holding the ids
/// `table` serves them in order, each found request taking one object of
/// its id out of the table.
pub open spec fn found_ids(table: Multiset<Id>, ids: Seq<Id>) -> Seq<Id>
    decreases ids.len(),
{
    if ids.len() == 0 {
        Seq::empty()
    } else if table.count(ids[0]) > 0 {
        seq![ids[0]] + found_ids(table.remove(ids[0]), ids.drop_first())
    } else {
        found_ids(table, ids.drop_first())
    }
}

/// No id of `s` is an id of `r`.
pub open spec fn ids_apart<T>(s: Seq<(Id, T)>, r: Seq<(Id, T)>) -> bool {
    forall|a: int, b: int| 0 <= a < s.len() && 0 <= b < r.len() ==> s[a].0 != r[b].0
}

/// No two entries share an id.
pub open spec fn ids_distinct<T>(s: Seq<(Id, T)>) -> bool {
    forall|i: int, j: int| 0 <= i < j < s.len() ==> s[i].0 != s[j].0
}

pub open spec fn has_id<T>(s: Seq<(Id, T)>, id: Id) -> bool {
    exists|i: int| 0 <= i < s.len() && s[i].0 == id
}

/// `p` splits `s` at `id`: the entries before `p` have ids up to `id`, the
/// entries from `p` on have larger ids.
pub open spec fn splits_at<T>(s: Seq<(Id, T)>, id: Id, p: int) -> bool {
    &&& 0 <= p <= s.len()
    &&& forall|j: int| 0 <= j < p ==> s[j].0 <= id
    &&& forall|j: int| p <= j < s.len() ==> s[j].0 > id
}

/// Where an entry with id `id` goes: after every entry whose id is not
/// larger.
pub open spec fn upper_index<T>(s: Seq<(Id, T)>, id: Id) -> int {
    choose|p: int| splits_at(s, id, p)
}

/// Only one position splits a sorted table at a given id.
pub proof fn lemma_split_unique<T>(s: Seq<(Id, T)>, id: Id, p: int)
    requires
        splits_at(s, id, p),
    ensures
        upper_index(s, id) == p,
{
    let q = upper_index(s, id);
    assert(splits_at(s, id, q));
    if q < p {
        assert(s[q].0 <= id);
    } else if p < q {
        assert(s[p].0 <= id);
    }
}

/// The table `s` after adding the entries of `xs`, first entry first, each
/// after every entry whose id is not larger.
pub open spec fn insert_all<T>(s: Seq<(Id, T)>, xs: Seq<(Id, T)>) -> Seq<(Id, T)>
    decreases xs.len(),
{
    if xs.len() == 0 {
        s
    } else {
        insert_all(s.insert(upper_index(s, xs[0].0), xs[0]), xs.drop_first())
    }
}

/// The live objects of the game, each with its id, kept in ascending id
/// order so that an object is found by binary search.
pub struct ObjectTable<T> {
    objs: Vec<(Id, T)>,
}

impl<T> ObjectTable<T> {
    pub closed spec fn view(self) -> Seq<(Id, T)> {
        self.objs@
    }

    pub open spec fn wf(self) -> bool {
        ids_sorted(self@)
    }

    pub fn new() -> (r: Self)
        ensures
            r@ == Seq::<(Id, T)>::empty(),
            r.wf(),
    {
        ObjectTable { objs: Vec::new() }
    }

    pub fn len(&self) -> (n: usize)
        ensures
            n == self@.len(),
    {
        self.objs.len()
    }

    pub fn get(&self, i: usize) -> (r: &(Id, T))
        requires
            i < self@.len(),
        ensures
            *r == self@[i as int],
    {
        &self.objs[i]
    }

    /// The position of an object with id `id`, if there is one.
    pub fn find(&self, id: Id) -> (r: Option<usize>)
        requires
            self.wf(),
        ensures
            match r {
                Some(i) => i < self@.len() && self@[i as int].0 == id,
                None => !has_id(self@, id),
            },
    {
        let mut lo: usize = 0;
        let mut hi: usize = self.objs.len();
        while lo < hi
            invariant
                ids_sorted(self.objs@),
                lo <= hi <= self.objs@.len(),
                forall|j: int| 0 <= j < lo ==> self.objs@[j].0 < id,
                forall|j: int| hi <= j < self.objs@.len() ==> self.objs@[j].0 > id,
            decreases hi - lo,
        {
            let mid = lo + (hi - lo) / 2;
            let key = self.objs[mid].0;
            if key == id {
                return Some(mid);
            } else if key < id {
                lo = mid + 1;
            } else {
                hi = mid;
            }
        }
        None
    }

    /// The first position whose id is larger than `id`.
    fn upper_bound(&self, id: Id) -> (p: usize)
        requires
            self.wf(),
        ensures
            p <= self@.len(),
            forall|j: int| 0 <= j < p ==> self@[j].0 <= id,
            forall|j: int| p <= j < self@.len() ==> self@[j].0 > id,
    {
        let mut lo: usize = 0;
        let mut hi: usize = self.objs.len();
        while lo < hi
            invariant
                ids_sorted(self.objs@),
                lo <= hi <= self.objs@.len(),
                forall|j: int| 0 <= j < lo ==> self.objs@[j].0 <= id,
                forall|j: int| hi <= j < self.objs@.len() ==> self.objs@[j].0 > id,
            decreases hi - lo,
        {
            let mid = lo + (hi - lo) / 2;
            if self.objs[mid].0 <= id {
                lo = mid + 1;
            } else {
                hi = mid;
            }
        }
        lo
    }

    /// Removes one object with id `id`, if there is one, and hands it back.
    pub fn remove(&mut self, id: Id) -> (r: Option<T>)
        requires
            old(self).wf(),
        ensures
            final(self).wf(),
            match r {
                Some(t) => exists|i: int|
                    0 <= i < old(self)@.len() && old(self)@[i] == (id, t) && final(self)@
                        == old(self)@.remove(i),
                None => !has_id(old(self)@, id) && final(self)@ == old(self)@,
            },
            ids_distinct(old(self)@) ==> ids_distinct(final(self)@) && !has_id(final(self)@, id),
    {
        match self.find(id) {
            Some(i) => {
                let ghost s0 = self.objs@;
                let (_, t) = self.objs.remove(i);
                proof {
                    if ids_distinct(s0) {
                        lemma_remove_keeps_distinct(s0, i as int);
                        if has_id(self.objs@, id) {
                            let q = choose|q: int| 0 <= q < self.objs@.len() && self.objs@[q].0 == id;
                            let q0 = if q < i { q } else { q + 1 };
                            assert(s0[q0] == self.objs@[q]);
                        }
                    }
                }
                assert(ids_sorted(self.objs@)) by {
                    assert forall|a: int, b: int| 0 <= a < b < self.objs@.len() implies self.objs@[a].0
                        <= self.objs@[b].0 by {
                        if a >= i as int {
                            assert(self.objs@[a] == s0[a + 1]);
                        }
                        if b >= i as int {
                            assert(self.objs@[b] == s0[b + 1]);
                        }
                    }
                }
                Some(t)
            },
            None => None,
        }
    }

    /// Adds the object `t` with id `id` after every object whose id is not
    /// larger.
    pub fn insert(&mut self, id: Id, t: T)
        requires
            old(self).wf(),
        ensures
            final(self).wf(),
            splits_at(old(self)@, id, upper_index(old(self)@, id)),
            final(self)@ == old(self)@.insert(upper_index(old(self)@, id), (id, t)),
            ids_distinct(old(self)@) && !has_id(old(self)@, id) ==> ids_distinct(final(self)@),
    {
        let p = self.upper_bound(id);
        let ghost s0 = self.objs@;
        proof {
            lemma_split_unique(s0, id, p as int);
        }
        self.objs.insert(p, (id, t));
        proof {
            if ids_distinct(s0) && !has_id(s0, id) {
                let s1 = self.objs@;
                assert forall|a: int, b: int| 0 <= a < b < s1.len() implies s1[a].0 != s1[b].0 by {
                    if a == p as int {
                        assert(s1[b] == s0[b - 1]);
                    } else if b == p as int {
                        assert(s1[a] == s0[a]);
                    } else {
                        let a0 = if a < p as int { a } else { a - 1 };
                        let b0 = if b < p as int { b } else { b - 1 };
                        assert(s1[a] == s0[a0]);
                        assert(s1[b] == s0[b0]);
                    }
                }
            }
        }
        assert(ids_sorted(self.objs@)) by {
            assert forall|a: int, b: int| 0 <= a < b < self.objs@.len() implies self.objs@[a].0
                <= self.objs@[b].0 by {
                if a > p as int {
                    assert(self.objs@[a] == s0[a - 1]);
                }
                if b > p as int {
                    assert(self.objs@[b] == s0[b - 1]);
                }
                if a < p as int {
                    assert(self.objs@[a] == s0[a]);
                }
                if b < p as int {
                    assert(self.objs@[b] == s0[b]);
                }
            }
        }
    }

    /// Adds all the objects of `new_objs`, first object first, each after
    /// every object whose id is not larger: the table stays in ascending id
    /// order, and objects of equal id keep the order in which they came.
    pub fn extend(&mut self, new_objs: Vec<(Id, T)>)
        requires
            old(self).wf(),
        ensures
            final(self).wf(),
            final(self)@ == insert_all(old(self)@, new_objs@),
            final(self)@.to_multiset() == old(self)@.to_multiset().add(new_objs@.to_multiset()),
            ids_distinct(old(self)@) && ids_distinct(new_objs@) && ids_apart(old(self)@, new_objs@)
                ==> ids_distinct(final(self)@),
    {
        let ghost fresh = ids_distinct(self.objs@) && ids_distinct(new_objs@) && ids_apart(
            self.objs@,
            new_objs@,
        );
        let mut rest = new_objs;
        let ghost all = self.objs@.to_multiset().add(rest@.to_multiset());
        let ghost target = insert_all(self.objs@, rest@);
        while rest.len() > 0
            invariant
                ids_sorted(self.objs@),
                self.objs@.to_multiset().add(rest@.to_multiset()) == all,
                insert_all(self.objs@, rest@) == target,
                fresh ==> ids_distinct(self.objs@) && ids_distinct(rest@) && ids_apart(
                    self.objs@,
                    rest@,
                ),
            decreases rest@.len(),
        {
            let ghost r0 = rest@;
            let ghost s0 = self.objs@;
            let (id, t) = rest.remove(0);
            assert(r0.remove(0) == rest@);
            assert(r0.drop_first() == rest@);
            self.insert(id, t);
            proof {
                if fresh {
                    lemma_insert_fresh(s0, r0, upper_index(s0, id));
                }
            }
            assert(self.objs@.to_multiset() == s0.to_multiset().insert((id, t)));
            assert(rest@.to_multiset() == r0.to_multiset().remove((id, t)));
            assert(r0.to_multiset().contains((id, t))) by {
                assert(r0[0] == (id, t));
            }
            assert(self.objs@.to_multiset().add(rest@.to_multiset()) =~= all);
        }
        assert(rest@.to_multiset() =~= Multiset::<(Id, T)>::empty());
        assert(self.objs@.to_multiset() =~= all);
    }

    /// Removes, in the given order, one object for each id of `ids` that
    /// still has one, and hands back the removed objects in that order.
    pub fn remove_ids(&mut self, ids: &Vec<Id>) -> (removed: Vec<(Id, T)>)
        requires
            old(self).wf(),
        ensures
            final(self).wf(),
            final(self)@.to_multiset().add(removed@.to_multiset()) == old(self)@.to_multiset(),
            forall|i: int| 0 <= i < removed@.len() ==> ids@.contains(#[trigger] removed@[i].0),
            forall|id: Id| ids@.contains(id) && has_id(old(self)@, id) ==> exists|i: int|
                0 <= i < removed@.len() && removed@[i].0 == id,
            ids_distinct(old(self)@) ==> ids_distinct(final(self)@) && forall|id: Id|
                ids@.contains(id) ==> !has_id(final(self)@, id),
            is_subsequence(final(self)@, old(self)@),
            id_seq(removed@) == found_ids(id_seq(old(self)@).to_multiset(), ids@),
    {
        let mut removed: Vec<(Id, T)> = Vec::new();
        let ghost orig = self.objs@;
        let ghost mut kept: Seq<int> = Seq::new(orig.len(), |i: int| i);
        let n = ids.len();
        let mut k: usize = 0;
        assert(ids@.subrange(0, n as int) == ids@);
        assert(id_seq(removed@) == Seq::<Id>::empty());
        assert(Seq::<Id>::empty() + found_ids(id_seq(orig).to_multiset(), ids@) == found_ids(
            id_seq(orig).to_multiset(),
            ids@,
        ));
        while k < n
            invariant
                n == ids@.len(),
                k <= n,
                ids_sorted(self.objs@),
                self.objs@.to_multiset().add(removed@.to_multiset()) == orig.to_multiset(),
                forall|i: int| 0 <= i < removed@.len() ==> ids@.contains(#[trigger] removed@[i].0),
                forall|j: int|
                    0 <= j < k ==> !has_id(orig, #[trigger] ids@[j]) || exists|i: int|
                        0 <= i < removed@.len() && removed@[i].0 == ids@[j],
                ids_distinct(orig) ==> ids_distinct(self.objs@) && forall|j: int|
                    0 <= j < k ==> !has_id(self.objs@, #[trigger] ids@[j]),
                kept_in_order(self.objs@, orig, kept),
                id_seq(removed@) + found_ids(
                    id_seq(self.objs@).to_multiset(),
                    ids@.subrange(k as int, n as int),
                ) == found_ids(id_seq(orig).to_multiset(), ids@),
            decreases n - k,
        {
            let id = ids[k];
            let ghost s0 = self.objs@;
            let ghost r0 = removed@;
            let ghost rest = ids@.subrange(k as int, n as int);
            assert(rest.drop_first() == ids@.subrange(k + 1, n as int));
            assert(rest[0] == id);
            match self.remove(id) {
                Some(t) => {
                    let ghost i = choose|i: int|
                        0 <= i < s0.len() && s0[i] == (id, t) && self.objs@ == s0.remove(i);
                    proof {
                        lemma_remove_kept_in_order(s0, orig, kept, i);
                        kept = kept.remove(i);
                        if ids_distinct(orig) {
                            lemma_remove_keeps_distinct(s0, i);
                            assert forall|j: int| 0 <= j < k + 1 implies !has_id(self.objs@, #[trigger] ids@[j]) by {
                                if has_id(self.objs@, ids@[j]) {
                                    let q = choose|q: int| 0 <= q < self.objs@.len() && self.objs@[q].0 == ids@[j];
                                    let q0 = if q < i { q } else { q + 1 };
                                    assert(s0[q0] == self.objs@[q]);
                                    if j < k {
                                        assert(has_id(s0, ids@[j]));
                                    } else {
                                        assert(s0[i].0 == id);
                                        assert(ids@[j] == id);
                                        assert(q0 != i);
                                    }
                                }
                            }
                        }
                    }
                    assert(self.objs@.to_multiset() == s0.to_multiset().remove((id, t)));
                    assert(s0.to_multiset().contains((id, t))) by {
                        assert(s0[i] == (id, t));
                    }
                    removed.push((id, t));
                    proof {
                        lemma_found_step_some(s0, i, rest, id_seq(r0));
                        assert(id_seq(removed@) == id_seq(r0).push(id));
                    }
                    assert(removed@.to_multiset() == r0.to_multiset().insert((id, t)));
                    assert(self.objs@.to_multiset().add(removed@.to_multiset()) =~= orig.to_multiset());
                    assert(ids@.contains(id)) by {
                        assert(ids@[k as int] == id);
                    }
                    assert forall|i: int| 0 <= i < removed@.len() implies ids@.contains(
                        #[trigger] removed@[i].0,
                    ) by {
                        if i < r0.len() {
                            assert(removed@[i] == r0[i]);
                        }
                    }
                    assert forall|j: int|
                        0 <= j < k + 1 implies !has_id(orig, #[trigger] ids@[j]) || exists|i: int|
                        0 <= i < removed@.len() && removed@[i].0 == ids@[j] by {
                        if j < k {
                            if has_id(orig, ids@[j]) {
                                let i0 = choose|i0: int| 0 <= i0 < r0.len() && r0[i0].0 == ids@[j];
                                assert(removed@[i0] == r0[i0]);
                            }
                        } else {
                            assert(removed@[r0.len() as int].0 == ids@[j]);
                        }
                    }
                },
                None => {
                    proof {
                    lemma_found_step_none(s0, rest);
                    if ids_distinct(orig) {
                        assert forall|j: int| 0 <= j < k + 1 implies !has_id(self.objs@, #[trigger] ids@[j]) by {
                            if j == k {
                                assert(ids@[j] == id);
                            }
                        }
                    }
                    if has_id(orig, id) {
                        let i0 = choose|i0: int| 0 <= i0 < orig.len() && orig[i0].0 == id;
                        let e = orig[i0];
                        assert(orig.to_multiset().count(e) > 0);
                        if self.objs@.to_multiset().count(e) > 0 {
                            assert(self.objs@.contains(e));
                            let q = choose|q: int| 0 <= q < self.objs@.len() && self.objs@[q] == e;
                            assert(has_id(s0, id));
                        } else {
                            assert(removed@.to_multiset().count(e) > 0);
                            assert(removed@.contains(e));
                            let q = choose|q: int| 0 <= q < removed@.len() && removed@[q] == e;
                            assert(removed@[q].0 == ids@[k as int]);
                        }
                    }
                    }
                },
            }
            k = k + 1;
        }
        proof {
            assert(kept_in_order(self.objs@, orig, kept));
            assert(ids@.subrange(n as int, n as int) == Seq::<Id>::empty());
            assert(id_seq(removed@) + Seq::<Id>::empty() == id_seq(removed@));
            if ids_distinct(orig) {
                assert forall|id: Id| ids@.contains(id) implies !has_id(self.objs@, id) by {
                    let j = choose|j: int| 0 <= j < ids@.len() && ids@[j] == id;
                    assert(!has_id(self.objs@, ids@[j]));
                }
            }
        }
        removed
    }
}

/// Moving the first of the fresh entries `r` into `s`, at any position,
/// keeps all ids distinct.
proof fn lemma_insert_fresh<T>(s: Seq<(Id, T)>, r: Seq<(Id, T)>, p: int)
    requires
        ids_distinct(s),
        ids_distinct(r),
        ids_apart(s, r),
        r.len() > 0,
        0 <= p <= s.len(),
    ensures
        ids_distinct(s.insert(p, r[0])),
        ids_distinct(r.drop_first()),
        ids_apart(s.insert(p, r[0]), r.drop_first()),
{
    let s1 = s.insert(p, r[0]);
    let r1 = r.drop_first();
    assert forall|a: int, b: int| 0 <= a < b < s1.len() implies s1[a].0 != s1[b].0 by {
        if a == p {
            assert(s1[b] == s[b - 1]);
            assert(s[b - 1].0 != r[0].0);
        } else if b == p {
            assert(s1[a] == s[a]);
            assert(s[a].0 != r[0].0);
        } else {
            let a0 = if a < p { a } else { a - 1 };
            let b0 = if b < p { b } else { b - 1 };
            assert(s1[a] == s[a0]);
            assert(s1[b] == s[b0]);
        }
    }
    assert forall|a: int, b: int| 0 <= a < b < r1.len() implies r1[a].0 != r1[b].0 by {
        assert(r1[a] == r[a + 1]);
        assert(r1[b] == r[b + 1]);
    }
    assert forall|a: int, b: int| 0 <= a < s1.len() && 0 <= b < r1.len() implies s1[a].0 != r1[b].0 by {
        assert(r1[b] == r[b + 1]);
        if a == p {
            assert(r[0].0 != r[b + 1].0);
        } else {
            let a0 = if a < p { a } else { a - 1 };
            assert(s1[a] == s[a0]);
        }
    }
}

/// Lookups in the object table are exact: in a table sorted by id with
/// distinct ids, an object with id `id` is present iff exactly one position
/// holds it, and that position is the only one with that id.
pub proof fn lemma_lookup_exact<T>(s: Seq<(Id, T)>, id: Id, i: int)
    requires
        ids_sorted(s),
        ids_distinct(s),
        0 <= i < s.len(),
        s[i].0 == id,
    ensures
        has_id(s, id),
        forall|j: int| 0 <= j < s.len() && s[j].0 == id ==> j == i,
{
    assert forall|j: int| 0 <= j < s.len() && s[j].0 == id implies j == i by {
        if j < i {
            assert(s[j].0 != s[i].0);
        } else if j > i {
            assert(s[i].0 != s[j].0);
        }
    }
}

/// A request that finds an object of its id: the object leaves the table
/// and its id joins the ids removed so far.
proof fn lemma_found_step_some<T>(s: Seq<(Id, T)>, i: int, rest: Seq<Id>, prefix: Seq<Id>)
    requires
        0 <= i < s.len(),
        rest.len() > 0,
        rest[0] == s[i].0,
    ensures
        prefix.push(s[i].0) + found_ids(id_seq(s.remove(i)).to_multiset(), rest.drop_first())
            == prefix + found_ids(id_seq(s).to_multiset(), rest),
{
    let ids = id_seq(s);
    assert(id_seq(s.remove(i)) =~= ids.remove(i));
    assert(ids.remove(i).to_multiset() == ids.to_multiset().remove(ids[i]));
    assert(ids[i] == s[i].0);
    assert(ids.contains(s[i].0));
    assert(ids.to_multiset().count(s[i].0) > 0);
    let tail = found_ids(ids.to_multiset().remove(s[i].0), rest.drop_first());
    assert(found_ids(ids.to_multiset(), rest) == seq![s[i].0] + tail);
    assert(prefix.push(s[i].0) + tail =~= prefix + (seq![s[i].0] + tail));
}

/// A request that finds no object of its id changes nothing.
proof fn lemma_found_step_none<T>(s: Seq<(Id, T)>, rest: Seq<Id>)
    requires
        rest.len() > 0,
        !has_id(s, rest[0]),
    ensures
        found_ids(id_seq(s).to_multiset(), rest.drop_first()) == found_ids(id_seq(s).to_multiset(), rest),
{
    let ids = id_seq(s);
    if ids.to_multiset().count(rest[0]) > 0 {
        assert(ids.to_multiset().contains(rest[0]));
        assert(ids.contains(rest[0]));
        let j = choose|j: int| 0 <= j < ids.len() && ids[j] == rest[0];
        assert(s[j].0 == rest[0]);
    }
}

/// Taking one more position out of a sequence kept in order keeps it in
/// order.
proof fn lemma_remove_kept_in_order<T>(sub: Seq<(Id, T)>, s: Seq<(Id, T)>, kept: Seq<int>, i: int)
    requires
        kept_in_order(sub, s, kept),
        0 <= i < sub.len(),
    ensures
        kept_in_order(sub.remove(i), s, kept.remove(i)),
{
    let r = sub.remove(i);
    let kr = kept.remove(i);
    assert forall|k: int| 0 <= k < kr.len() implies 0 <= #[trigger] kr[k] < s.len() && r[k] == s[kr[k]] by {
        let k0 = if k < i { k } else { k + 1 };
        assert(kr[k] == kept[k0]);
        assert(r[k] == sub[k0]);
    }
    assert forall|a: int, b: int| 0 <= a < b < kr.len() implies kr[a] < kr[b] by {
        let a0 = if a < i { a } else { a + 1 };
        let b0 = if b < i { b } else { b + 1 };
        assert(kr[a] == kept[a0]);
        assert(kr[b] == kept[b0]);
    }
}

/// Removing an entry keeps the remaining ids distinct.
proof fn lemma_remove_keeps_distinct<T>(s: Seq<(Id, T)>, i: int)
    requires
        ids_distinct(s),
        0 <= i < s.len(),
    ensures
        ids_distinct(s.remove(i)),
{
    let r = s.remove(i);
    assert forall|a: int, b: int| 0 <= a < b < r.len() implies r[a].0 != r[b].0 by {
        let a0 = if a < i { a } else { a + 1 };
        let b0 = if b < i { b } else { b + 1 };
        assert(r[a] == s[a0]);
        assert(r[b] == s[b0]);
    }
}

/// What the game loop does for one command it read.
pub enum CommandAction<G, M, F> {
    /// Start the game afresh.
    Restart,
    /// Remove object `id` once all commands are read.
    QueueRemoval(Id),
    /// Add the object once all commands are read.
    QueueCreation(G),
    /// Hand the message to the object at this position of the table.
    Deliver(usize, M),
    /// Apply the force to the object at this position of the table.
    Push(usize, F),
    /// Queue a line of dialogue with this priority.
    ShowDialogue(u32, String),
    /// Send the trigger message to the object at this position of the table.
    Wake(usize),
    /// Nothing to do.
    Nothing,
}

/// Decides what the game loop does with `cmd`: removals and creations wait
/// until all commands are read; messages and forces go to the addressed
/// object if it is alive, and are dropped if not; a trigger wakes the object
/// that the trigger id is connected to, if there is one and it is alive.
pub fn route_command<G, M, F, T, B: Copy, D>(
    cmd: MetaCommand<G, M, F>,
    objs: &ObjectTable<T>,
    world: &mut World<B, D>,
) -> (r: CommandAction<G, M, F>)
    requires
        objs.wf(),
    ensures
        *final(world) == *old(world),
        match cmd {
            MetaCommand::RestartGame => r is Restart,
            MetaCommand::RemoveObject(id) => r == CommandAction::<G, M, F>::QueueRemoval(id),
            MetaCommand::CreateObject(g) => r == CommandAction::<G, M, F>::QueueCreation(g),
            MetaCommand::MessageObject(id, m) => if has_id(objs@, id) {
                r matches CommandAction::Deliver(i, m2) && i < objs@.len() && objs@[i as int].0
                    == id && m2 == m
            } else {
                r is Nothing
            },
            MetaCommand::ApplyForce(id, f) => if has_id(objs@, id) {
                r matches CommandAction::Push(i, f2) && i < objs@.len() && objs@[i as int].0 == id
                    && f2 == f
            } else {
                r is Nothing
            },
            MetaCommand::Dialogue(p, t) => r == CommandAction::<G, M, F>::ShowDialogue(p, t),
            MetaCommand::CollectCrown => r is Nothing,
            MetaCommand::Trigger(tid) => if old(world).trigger_map().contains_key(tid) && has_id(
                objs@,
                old(world).trigger_map()[tid],
            ) {
                r matches CommandAction::Wake(i) && i < objs@.len() && objs@[i as int].0
                    == old(world).trigger_map()[tid]
            } else {
                r is Nothing
            },
        },
{
    match cmd {
        MetaCommand::RestartGame => CommandAction::Restart,
        MetaCommand::RemoveObject(id) => CommandAction::QueueRemoval(id),
        MetaCommand::CreateObject(g) => CommandAction::QueueCreation(g),
        MetaCommand::MessageObject(id, m) => match objs.find(id) {
            Some(i) => CommandAction::Deliver(i, m),
            None => CommandAction::Nothing,
        },
        MetaCommand::ApplyForce(id, f) => match objs.find(id) {
            Some(i) => CommandAction::Push(i, f),
            None => CommandAction::Nothing,
        },
        MetaCommand::Dialogue(p, t) => CommandAction::ShowDialogue(p, t),
        MetaCommand::CollectCrown => CommandAction::Nothing,
        MetaCommand::Trigger(tid) => match world.get_from_trigger_id(tid) {
            Some(id) => match objs.find(id) {
                Some(i) => CommandAction::Wake(i),
                None => CommandAction::Nothing,
            },
            None => CommandAction::Nothing,
        },
    }
}

} // verus!
