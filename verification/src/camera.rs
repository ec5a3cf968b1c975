//! The editor's stack of cameras. Each camera gets an id when it joins; the
//! camera of highest priority is the one that drives the view. How a camera
//! moves and what view it gives is the camera's own business: a camera is a
//! value of the type parameter `C`.
use vstd::prelude::*;

verus! {

#[derive(Clone, Copy, PartialEq, Eq, Structural, Debug)]
pub struct CameraId(pub usize);

#[derive(Clone, Copy, PartialEq, Eq, Structural, PartialOrd, Ord, Debug)]
pub struct CameraPriority(pub u32);

/// A camera with its id and its priority.
pub struct IdCamera<C> {
    pub id: CameraId,
    pub priority: CameraPriority,
    pub camera: C,
}

/// The cameras of `s` whose id is not `target`, in the order of `s`.
pub open spec fn without_id<C>(s: Seq<IdCamera<C>>, target: CameraId) -> Seq<IdCamera<C>>
    decreases s.len(),
{
    if s.len() == 0 {
        Seq::empty()
    } else {
        let prev = without_id(s.drop_last(), target);
        if s.last().id == target {
            prev
        } else {
            prev.push(s.last())
        }
    }
}

/// Removing by id leaves no camera with that id and keeps every other one.
pub proof fn lemma_without_id<C>(s: Seq<IdCamera<C>>, target: CameraId, c: IdCamera<C>)
    ensures
        without_id(s, target).contains(c) <==> (s.contains(c) && c.id != target),
    decreases s.len(),
{
    if s.len() > 0 {
        let t = s.drop_last();
        lemma_without_id(t, target, c);
        let prev = without_id(t, target);
        if without_id(s, target).contains(c) && !prev.contains(c) {
            let k = choose|k: int| 0 <= k < without_id(s, target).len() && without_id(s, target)[k] == c;
            assert(k == prev.len());
            assert(s[s.len() - 1] == c);
        }
        if prev.contains(c) {
            let k = choose|k: int| 0 <= k < prev.len() && prev[k] == c;
            assert(without_id(s, target)[k] == c);
        }
        if s.contains(c) && c.id != target {
            let i = choose|i: int| 0 <= i < s.len() && s[i] == c;
            if i < s.len() - 1 {
                assert(t[i] == c);
            } else {
                assert(without_id(s, target)[prev.len() as int] == c);
            }
        }
        if t.contains(c) {
            let i = choose|i: int| 0 <= i < t.len() && t[i] == c;
            assert(s[i] == c);
        }
    }
}

pub open spec fn ids_below<C>(s: Seq<IdCamera<C>>, bound: usize) -> bool {
    forall|i: int| 0 <= i < s.len() ==> (#[trigger] s[i]).id.0 < bound
}

pub struct Editor<C> {
    cameras: Vec<IdCamera<C>>,
    current_id: CameraId,
}

impl<C> Editor<C> {
    /// The cameras, in no particular order.
    pub closed spec fn view(self) -> Seq<IdCamera<C>> {
        self.cameras@
    }

    /// The id that the next camera to join gets.
    pub closed spec fn next_id(self) -> usize {
        self.current_id.0
    }

    /// Every camera's id is smaller than the id the next camera gets.
    pub open spec fn wf(self) -> bool {
        ids_below(self@, self.next_id())
    }

    /// An editor with the given cameras, numbered from 0 in the given order.
    pub fn new(cameras: Vec<(CameraPriority, C)>) -> (r: Self)
        requires
            cameras@.len() < usize::MAX,
        ensures
            r.wf(),
            r@.len() == cameras@.len(),
            forall|i: int|
                0 <= i < cameras@.len() ==> (#[trigger] r@[i]).id == CameraId(i as usize)
                    && r@[i].priority == cameras@[i].0 && r@[i].camera == cameras@[i].1,
            r.next_id() == cameras@.len() + 1,
    {
        let n = cameras.len();
        let mut rest = cameras;
        let ghost orig = rest@;
        let mut id_cameras: Vec<IdCamera<C>> = Vec::new();
        let mut i: usize = 0;
        while rest.len() > 0
            invariant
                i + rest@.len() == n,
                n == orig.len(),
                n < usize::MAX,
                rest@ == orig.subrange(i as int, n as int),
                id_cameras@.len() == i,
                forall|j: int|
                    0 <= j < i ==> (#[trigger] id_cameras@[j]).id == CameraId(j as usize)
                        && id_cameras@[j].priority == orig[j].0 && id_cameras@[j].camera == orig[j].1,
            decreases rest@.len(),
        {
            let (p, c) = rest.remove(0);
            id_cameras.push(IdCamera { id: CameraId(i), priority: p, camera: c });
            i = i + 1;
        }
        Editor { cameras: id_cameras, current_id: CameraId(n + 1) }
    }

    /// The id that the next camera to join gets.
    pub fn next_camera_id(&self) -> (r: CameraId)
        ensures
            r.0 == self.next_id(),
    {
        self.current_id
    }

    /// Adds a camera under a fresh id and returns the id.
    pub fn add_camera(&mut self, priority: CameraPriority, camera: C) -> (id: CameraId)
        requires
            old(self).wf(),
            old(self).next_id() < usize::MAX,
        ensures
            final(self).wf(),
            id.0 == old(self).next_id(),
            forall|i: int| 0 <= i < old(self)@.len() ==> (#[trigger] old(self)@[i]).id != id,
            final(self)@ == old(self)@.push(IdCamera { id: id, priority: priority, camera: camera }),
            final(self).next_id() == old(self).next_id() + 1,
    {
        let id = self.current_id;
        self.current_id = CameraId(self.current_id.0 + 1);
        self.cameras.push(IdCamera { id: id, priority: priority, camera: camera });
        id
    }

    /// Removes every camera with id `target_id`.
    pub fn remove_camera(&mut self, target_id: CameraId)
        requires
            old(self).wf(),
        ensures
            final(self).wf(),
            final(self)@ == without_id(old(self)@, target_id),
            final(self).next_id() == old(self).next_id(),
    {
        let mut kept: Vec<IdCamera<C>> = Vec::new();
        let mut rest: Vec<IdCamera<C>> = Vec::new();
        std::mem::swap(&mut rest, &mut self.cameras);
        let ghost orig = rest@;
        let n = rest.len();
        let mut i: usize = 0;
        while rest.len() > 0
            invariant
                i + rest@.len() == n,
                n == orig.len(),
                rest@ == orig.subrange(i as int, n as int),
                kept@ == without_id(orig.take(i as int), target_id),
                ids_below(orig, self.current_id.0),
                ids_below(kept@, self.current_id.0),
            decreases rest@.len(),
        {
            let c = rest.remove(0);
            assert(orig.take(i + 1).drop_last() == orig.take(i as int));
            assert(orig[i as int] == c);
            if c.id != target_id {
                kept.push(c);
            }
            i = i + 1;
        }
        assert(orig.take(n as int) == orig);
        self.cameras = kept;
    }

    /// Takes out the camera of highest priority (the first such, if several
    /// share it).
    pub fn pop_top(&mut self) -> (r: Option<IdCamera<C>>)
        requires
            old(self).wf(),
        ensures
            final(self).wf(),
            final(self).next_id() == old(self).next_id(),
            match r {
                Some(c) => exists|i: int|
                    0 <= i < old(self)@.len() && old(self)@[i] == c && final(self)@ == old(self)@.remove(i)
                        && (forall|j: int|
                        0 <= j < old(self)@.len() ==> (#[trigger] old(self)@[j]).priority.0
                            <= c.priority.0) && (forall|j: int|
                        0 <= j < i ==> (#[trigger] old(self)@[j]).priority.0 < c.priority.0),
                None => old(self)@.len() == 0 && final(self)@ == old(self)@,
            },
    {
        let n = self.cameras.len();
        if n == 0 {
            return None;
        }
        let mut best: usize = 0;
        let mut k: usize = 1;
        while k < n
            invariant
                n == self.cameras@.len(),
                1 <= k <= n,
                best < k,
                forall|j: int| 0 <= j < k ==> (#[trigger] self.cameras@[j]).priority.0
                    <= self.cameras@[best as int].priority.0,
                forall|j: int| 0 <= j < best ==> (#[trigger] self.cameras@[j]).priority.0
                    < self.cameras@[best as int].priority.0,
            decreases n - k,
        {
            if self.cameras[k].priority.0 > self.cameras[best].priority.0 {
                best = k;
            }
            k = k + 1;
        }
        let ghost s0 = self.cameras@;
        let c = self.cameras.remove(best);
        assert(ids_below(self.cameras@, self.current_id.0)) by {
            assert forall|i: int| 0 <= i < self.cameras@.len() implies (#[trigger] self.cameras@[i]).id.0
                < self.current_id.0 by {
                if i < best {
                    assert(self.cameras@[i] == s0[i]);
                } else {
                    assert(self.cameras@[i] == s0[i + 1]);
                }
            }
        }
        Some(c)
    }

    /// Returns a camera taken out by [`Editor::pop_top`].
    pub fn push_back(&mut self, c: IdCamera<C>)
        requires
            old(self).wf(),
            c.id.0 < old(self).next_id(),
        ensures
            final(self).wf(),
            final(self)@ == old(self)@.push(c),
            final(self).next_id() == old(self).next_id(),
    {
        self.cameras.push(c);
    }
}

} // verus!
