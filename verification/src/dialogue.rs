//! Lines of dialogue waiting to be shown, highest priority first.
//!
//! A line is shown only while it is fresh; lines that went stale while
//! waiting are dropped when the queue is read. The time stamp of a line is a
//! value of the type parameter `T`; whether a line is still fresh is
//! answered by the closure given to [`DialogueBuffer::get`].
use vstd::prelude::*;

verus! {

broadcast use vstd::seq_lib::group_to_multiset_ensures, vstd::multiset::group_multiset_axioms;

pub type Priority = u32;

pub struct Dialogue<T> {
    pub timestamp: T,
    pub priority: Priority,
    pub text: String,
}

impl<T> Dialogue<T> {
    pub fn new(timestamp: T, priority: Priority, text: String) -> (r: Self)
        ensures
            r.timestamp == timestamp,
            r.priority == priority,
            r.text == text,
    {
        Dialogue { timestamp: timestamp, priority: priority, text: text }
    }
}

pub open spec fn priorities_ascending<T>(s: Seq<Dialogue<T>>) -> bool {
    forall|i: int, j: int| 0 <= i < j < s.len() ==> s[i].priority <= s[j].priority
}

pub struct DialogueBuffer<T> {
    queue: Vec<Dialogue<T>>,
}

impl<T> DialogueBuffer<T> {
    /// The waiting lines in ascending priority; the last is shown first.
    pub closed spec fn view(self) -> Seq<Dialogue<T>> {
        self.queue@
    }

    pub open spec fn wf(self) -> bool {
        priorities_ascending(self@)
    }

    pub fn new() -> (r: Self)
        ensures
            r@ == Seq::<Dialogue<T>>::empty(),
            r.wf(),
    {
        DialogueBuffer { queue: Vec::new() }
    }

    /// Queues `d` behind every waiting line of higher priority and ahead of
    /// the waiting lines of equal or lower priority.
    pub fn add(&mut self, d: Dialogue<T>)
        requires
            old(self).wf(),
        ensures
            final(self).wf(),
            final(self)@.to_multiset() == old(self)@.to_multiset().insert(d),
            exists|p: int|
                0 <= p <= old(self)@.len() && final(self)@ == old(self)@.insert(p, d) && (forall|
                    j: int,
                | 0 <= j < p ==> old(self)@[j].priority <= d.priority) && (forall|j: int|
                    p <= j < old(self)@.len() ==> old(self)@[j].priority > d.priority),
    {
        let mut lo: usize = 0;
        let mut hi: usize = self.queue.len();
        while lo < hi
            invariant
                priorities_ascending(self.queue@),
                lo <= hi <= self.queue@.len(),
                forall|j: int| 0 <= j < lo ==> self.queue@[j].priority <= d.priority,
                forall|j: int| hi <= j < self.queue@.len() ==> self.queue@[j].priority > d.priority,
            decreases hi - lo,
        {
            let mid = lo + (hi - lo) / 2;
            if self.queue[mid].priority <= d.priority {
                lo = mid + 1;
            } else {
                hi = mid;
            }
        }
        let ghost s0 = self.queue@;
        let ghost dd = d;
        self.queue.insert(lo, d);
        assert(self.queue@ == s0.insert(lo as int, dd));
        assert(priorities_ascending(self.queue@)) by {
            assert forall|a: int, b: int| 0 <= a < b < self.queue@.len() implies self.queue@[a].priority
                <= self.queue@[b].priority by {
                if a > lo as int {
                    assert(self.queue@[a] == s0[a - 1]);
                }
                if b > lo as int {
                    assert(self.queue@[b] == s0[b - 1]);
                }
                if a < lo as int {
                    assert(self.queue@[a] == s0[a]);
                }
                if b < lo as int {
                    assert(self.queue@[b] == s0[b]);
                }
            }
        }
    }

    /// Takes waiting lines, highest priority first, until one is fresh, and
    /// returns its text. The stale lines taken on the way are dropped. When
    /// no waiting line is fresh the queue ends up empty.
    pub fn get<F: Fn(&Dialogue<T>) -> bool>(&mut self, fresh: F) -> (r: Option<String>)
        requires
            old(self).wf(),
            forall|d: &Dialogue<T>| #[trigger] fresh.requires((d,)),
        ensures
            final(self).wf(),
            match r {
                Some(text) => exists|k: int|
                    #![trigger old(self)@[k]]
                    0 <= k < old(self)@.len() && fresh.ensures((&old(self)@[k],), true) && text
                        == old(self)@[k].text && final(self)@ == old(self)@.take(k) && (forall|
                        j: int,
                    |
                        k < j < old(self)@.len() ==> fresh.ensures(
                            (&#[trigger] old(self)@[j],),
                            false,
                        )),
                None => final(self)@ == Seq::<Dialogue<T>>::empty() && forall|j: int|
                    0 <= j < old(self)@.len() ==> fresh.ensures((&#[trigger] old(self)@[j],), false),
            },
    {
        let ghost q = self.queue@;
        while self.queue.len() > 0
            invariant
                old(self)@ == q,
                priorities_ascending(q),
                self.queue@ == q.take(self.queue@.len() as int),
                self.queue@.len() <= q.len(),
                forall|d: &Dialogue<T>| #[trigger] fresh.requires((d,)),
                forall|j: int|
                    self.queue@.len() <= j < q.len() ==> fresh.ensures((&#[trigger] q[j],), false),
            decreases self.queue@.len(),
        {
            let ghost n = self.queue@.len();
            let d = self.queue.pop().unwrap();
            assert(d == q[n - 1]);
            assert(self.queue@ == q.take(n - 1));
            let is_fresh = fresh(&d);
            if is_fresh {
                proof {
                    assert(fresh.ensures((&q[n - 1],), true));
                    assert(old(self)@[n - 1] == q[n - 1]);
                }
                return Some(d.text);
            }
        }
        None
    }
}

/// The line shown by `get` has a priority at least as high as that of every
/// line still waiting afterwards.
pub proof fn lemma_shown_line_outranks_waiting<T>(q: Seq<Dialogue<T>>, k: int)
    requires
        priorities_ascending(q),
        0 <= k < q.len(),
    ensures
        forall|j: int| 0 <= j < q.take(k).len() ==> #[trigger] q.take(k)[j].priority <= q[k].priority,
{
}

} // verus!
