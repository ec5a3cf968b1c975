//! A plain registry of bounding boxes: updates queue up until
//! [`BBHandler::update`] applies them, oldest first, and ids are handed out
//! from zero upwards.
use vstd::prelude::*;
use crate::collision::{BBDescriptor, BBProperties, Id};
use crate::id_map::IdMap;
use crate::world::{SendType, apply_bb_updates};

verus! {

pub struct BBHandler<B> {
    world: IdMap<BBDescriptor<B>>,
    pending: Vec<SendType<B>>,
    new_id: u32,
}

impl<B: Copy> BBHandler<B> {
    pub closed spec fn bb_map(self) -> Map<Id, BBDescriptor<B>> {
        self.world@
    }

    pub closed spec fn bb_entries(self) -> Seq<(Id, BBDescriptor<B>)> {
        self.world.entries()
    }

    pub closed spec fn bb_pending(self) -> Seq<SendType<B>> {
        self.pending@
    }

    /// The id the next call of `generate_id` hands out.
    pub closed spec fn next_id(self) -> u32 {
        self.new_id
    }

    pub closed spec fn wf(self) -> bool {
        self.world.wf()
    }

    pub fn new() -> (r: Self)
        ensures
            r.wf(),
            r.bb_map() == Map::<Id, BBDescriptor<B>>::empty(),
            r.bb_pending() == Seq::<SendType<B>>::empty(),
            r.next_id() == 0,
    {
        BBHandler { world: IdMap::new(), pending: Vec::new(), new_id: 0 }
    }

    /// Applies every update sent since the last call, oldest first.
    pub fn update(&mut self)
        requires
            old(self).wf(),
        ensures
            final(self).wf(),
            final(self).bb_map() == apply_bb_updates(old(self).bb_map(), old(self).bb_pending()),
            final(self).bb_pending() == Seq::<SendType<B>>::empty(),
            final(self).next_id() == old(self).next_id(),
    {
        let ghost m0 = self.world@;
        let n = self.pending.len();
        let mut i: usize = 0;
        while i < n
            invariant
                n == self.pending@.len(),
                i <= n,
                self.world.wf(),
                self.pending@ == old(self).pending@,
                self.new_id == old(self).new_id,
                self.world@ == apply_bb_updates(m0, self.pending@.take(i as int)),
            decreases n - i,
        {
            let (p, maybe_bb) = self.pending[i];
            assert(self.pending@.take(i + 1).drop_last() == self.pending@.take(i as int));
            match maybe_bb {
                Some(bb) => {
                    self.world.insert(p.id, (p, bb));
                },
                None => {
                    self.world.remove(p.id);
                },
            }
            i = i + 1;
        }
        assert(self.pending@.take(n as int) == self.pending@);
        self.pending = Vec::new();
    }

    pub fn get(&self, id: Id) -> (r: Option<BBDescriptor<B>>)
        requires
            self.wf(),
        ensures
            r == (if self.bb_map().contains_key(id) {
                Some(self.bb_map()[id])
            } else {
                None::<BBDescriptor<B>>
            }),
    {
        self.world.get(id)
    }

    /// The id the next call of `generate_id` hands out.
    pub fn peek_id(&self) -> (r: u32)
        ensures
            r == self.next_id(),
    {
        self.new_id
    }

    /// Hands out the next id, starting from zero.
    pub fn generate_id(&mut self) -> (r: u32)
        requires
            old(self).next_id() < u32::MAX,
        ensures
            r == old(self).next_id(),
            final(self).next_id() == r + 1,
            final(self).bb_map() == old(self).bb_map(),
            final(self).bb_entries() == old(self).bb_entries(),
            final(self).bb_pending() == old(self).bb_pending(),
            final(self).wf() == old(self).wf(),
    {
        let r = self.new_id;
        self.new_id = r + 1;
        r
    }

    /// Queues an update for the next [`BBHandler::update`].
    pub fn send(&mut self, p: BBProperties, bb: Option<B>)
        ensures
            final(self).bb_pending() == old(self).bb_pending().push((p, bb)),
            final(self).bb_map() == old(self).bb_map(),
            final(self).bb_entries() == old(self).bb_entries(),
            final(self).next_id() == old(self).next_id(),
            final(self).wf() == old(self).wf(),
    {
        self.pending.push((p, bb));
    }

    /// Every registered box with its properties, in ascending id order.
    pub fn to_vec(&self) -> (v: Vec<BBDescriptor<B>>)
        ensures
            v@ == self.bb_entries().map_values(|e: (Id, BBDescriptor<B>)| e.1),
    {
        let mut v: Vec<BBDescriptor<B>> = Vec::new();
        let n = self.world.len();
        let mut i: usize = 0;
        while i < n
            invariant
                n == self.world.entries().len(),
                i <= n,
                v@ == self.world.entries().take(i as int).map_values(|e: (Id, BBDescriptor<B>)| e.1),
            decreases n - i,
        {
            let e = self.world.entry(i);
            v.push(e.1);
            i = i + 1;
            assert(v@ =~= self.world.entries().take(i as int).map_values(|e: (Id, BBDescriptor<B>)| e.1));
        }
        assert(self.world.entries().take(n as int) == self.world.entries());
        v
    }
}

} // verus!
