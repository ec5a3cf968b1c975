//! The world: the registry of bounding boxes that the physics tests against,
//! the registry of fighters that enemies pick their targets from, the
//! generator of object ids, and the map from trigger ids to the objects they
//! wake.
//!
//! Objects do not write the registries directly. They send updates, which
//! queue up until the next [`World::update`] applies them in the order they
//! were sent and rebuilds the lists that the tick reads.
use vstd::prelude::*;
use std::collections::HashMap;
use crate::collision::{BBDescriptor, BBProperties, Id};
use crate::flags::BBOwnerType;
use crate::id_map::{IdMap, keys_ascending, entries_map, lemma_entries_map_at};

verus! {

broadcast use vstd::std_specs::hash::group_hash_axioms;

pub type TriggerId = u32;

pub type Faction = u32;

#[derive(Clone, Copy, PartialEq, Eq, Structural, Debug)]
pub struct Fighter {
    pub id: Id,
    pub allegiance: Option<Faction>,
}

/// An update of the box registry: the box of the object `p.id` is now the
/// given one, or (with `None`) the object left the registry.
pub type SendType<B> = (BBProperties, Option<B>);

/// An update of the fighter registry.
pub type FighterSendType = (Id, Option<Fighter>);

/// The box registry after applying `u` to `m`, first update first.
pub open spec fn apply_bb_updates<B>(
    m: Map<Id, BBDescriptor<B>>,
    u: Seq<SendType<B>>,
) -> Map<Id, BBDescriptor<B>>
    decreases u.len(),
{
    if u.len() == 0 {
        m
    } else {
        let prev = apply_bb_updates(m, u.drop_last());
        let (p, maybe_bb) = u.last();
        match maybe_bb {
            Some(bb) => prev.insert(p.id, (p, bb)),
            None => prev.remove(p.id),
        }
    }
}

/// The fighter registry after applying `u` to `m`, first update first.
pub open spec fn apply_fighter_updates(
    m: Map<Id, Fighter>,
    u: Seq<FighterSendType>,
) -> Map<Id, Fighter>
    decreases u.len(),
{
    if u.len() == 0 {
        m
    } else {
        let prev = apply_fighter_updates(m, u.drop_last());
        let (id, maybe_f) = u.last();
        match maybe_f {
            Some(f) => prev.insert(id, f),
            None => prev.remove(id),
        }
    }
}

pub open spec fn nocollide_kind() -> BBOwnerType {
    BBOwnerType { bits: 0b01000000 }
}

/// The descriptors of the registry entries `s` that take part in collision
/// tests (not marked "no collide"), in the order of `s`.
pub open spec fn collidable<B>(s: Seq<(Id, BBDescriptor<B>)>) -> Seq<BBDescriptor<B>>
    decreases s.len(),
{
    if s.len() == 0 {
        Seq::empty()
    } else {
        let prev = collidable(s.drop_last());
        let d = s.last().1;
        if d.0.owner_type.spec_contains(nocollide_kind()) {
            prev
        } else {
            prev.push(d)
        }
    }
}

/// Membership in [`collidable`]: exactly the descriptors of `s` that are not
/// marked "no collide".
pub proof fn lemma_collidable_members<B>(s: Seq<(Id, BBDescriptor<B>)>, d: BBDescriptor<B>)
    ensures
        collidable(s).contains(d) <==> exists|i: int|
            0 <= i < s.len() && s[i].1 == d && !d.0.owner_type.spec_contains(nocollide_kind()),
    decreases s.len(),
{
    if s.len() > 0 {
        let t = s.drop_last();
        lemma_collidable_members(t, d);
        let prev = collidable(t);
        if collidable(s).contains(d) {
            if !prev.contains(d) {
                let k = choose|k: int| 0 <= k < collidable(s).len() && collidable(s)[k] == d;
                assert(k == prev.len());
                assert(s[s.len() - 1].1 == d);
            } else {
                let i = choose|i: int|
                    0 <= i < t.len() && t[i].1 == d && !d.0.owner_type.spec_contains(
                        nocollide_kind(),
                    );
                assert(s[i] == t[i]);
            }
        }
        if exists|i: int|
            0 <= i < s.len() && s[i].1 == d && !d.0.owner_type.spec_contains(nocollide_kind()) {
            let i = choose|i: int|
                0 <= i < s.len() && s[i].1 == d && !d.0.owner_type.spec_contains(
                    nocollide_kind(),
                );
            if i < s.len() - 1 {
                assert(t[i] == s[i]);
                let k = choose|k: int| 0 <= k < prev.len() && prev[k] == d;
                assert(collidable(s)[k] == d);
            } else {
                assert(collidable(s) == prev.push(d));
                assert(collidable(s)[prev.len() as int] == d);
            }
        }
    }
}

pub open spec fn fighters_of(s: Seq<(Id, Fighter)>) -> Seq<Fighter> {
    s.map_values(|e: (Id, Fighter)| e.1)
}

fn apply_bb_pending<B: Copy>(world: &mut IdMap<BBDescriptor<B>>, pending: &Vec<SendType<B>>)
    requires
        old(world).wf(),
        forall|k: Id| #[trigger] old(world)@.contains_key(k) ==> old(world)@[k].0.id == k,
    ensures
        final(world).wf(),
        final(world)@ == apply_bb_updates(old(world)@, pending@),
        forall|k: Id| #[trigger] final(world)@.contains_key(k) ==> final(world)@[k].0.id == k,
{
    let ghost m0 = world@;
    let n = pending.len();
    let mut i: usize = 0;
    while i < n
        invariant
            n == pending@.len(),
            i <= n,
            world.wf(),
            world@ == apply_bb_updates(m0, pending@.take(i as int)),
            forall|k: Id| #[trigger] world@.contains_key(k) ==> world@[k].0.id == k,
        decreases n - i,
    {
        let (p, maybe_bb) = pending[i];
        assert(pending@.take(i + 1).drop_last() == pending@.take(i as int));
        match maybe_bb {
            Some(bb) => {
                world.insert(p.id, (p, bb));
            },
            None => {
                world.remove(p.id);
            },
        }
        i = i + 1;
    }
    assert(pending@.take(n as int) == pending@);
}

fn collect_collidable<B: Copy>(world: &IdMap<BBDescriptor<B>>) -> (buf: Vec<BBDescriptor<B>>)
    ensures
        buf@ == collidable(world.entries()),
{
    let mut buf: Vec<BBDescriptor<B>> = Vec::new();
    let len = world.len();
    let mut j: usize = 0;
    while j < len
        invariant
            len == world.entries().len(),
            j <= len,
            buf@ == collidable(world.entries().take(j as int)),
        decreases len - j,
    {
        let e = world.entry(j);
        assert(world.entries().take(j + 1).drop_last() == world.entries().take(j as int));
        if !e.1.0.owner_type.contains(BBOwnerType::nocollide()) {
            buf.push(e.1);
        }
        j = j + 1;
    }
    assert(world.entries().take(len as int) == world.entries());
    buf
}

fn apply_fighter_pending(fighters: &mut IdMap<Fighter>, pending: &Vec<FighterSendType>)
    requires
        old(fighters).wf(),
    ensures
        final(fighters).wf(),
        final(fighters)@ == apply_fighter_updates(old(fighters)@, pending@),
{
    let ghost f0 = fighters@;
    let fnum = pending.len();
    let mut k: usize = 0;
    while k < fnum
        invariant
            fnum == pending@.len(),
            k <= fnum,
            fighters.wf(),
            fighters@ == apply_fighter_updates(f0, pending@.take(k as int)),
        decreases fnum - k,
    {
        let (id, maybe_f) = pending[k];
        assert(pending@.take(k + 1).drop_last() == pending@.take(k as int));
        match maybe_f {
            Some(f) => {
                fighters.insert(id, f);
            },
            None => {
                fighters.remove(id);
            },
        }
        k = k + 1;
    }
    assert(pending@.take(fnum as int) == pending@);
}

fn collect_fighters(fighters: &IdMap<Fighter>) -> (fbuf: Vec<Fighter>)
    ensures
        fbuf@ == fighters_of(fighters.entries()),
{
    let mut fbuf: Vec<Fighter> = Vec::new();
    let flen = fighters.len();
    let mut q: usize = 0;
    while q < flen
        invariant
            flen == fighters.entries().len(),
            q <= flen,
            fbuf@ == fighters_of(fighters.entries().take(q as int)),
        decreases flen - q,
    {
        let e = fighters.entry(q);
        fbuf.push(e.1);
        q = q + 1;
        assert(fbuf@ =~= fighters_of(fighters.entries().take(q as int)));
    }
    assert(fighters.entries().take(flen as int) == fighters.entries());
    fbuf
}

/// Read after write: once an update of object `p.id` to box `b` has been
/// applied, the registry maps `p.id` to `(p, b)`; once a removal has been
/// applied, the registry has no entry for `p.id`.
pub proof fn lemma_update_then_get<B>(m: Map<Id, BBDescriptor<B>>, u: Seq<SendType<B>>, p: BBProperties, b: Option<B>)
    ensures
        b is Some ==> apply_bb_updates(m, u.push((p, b))).contains_key(p.id)
            && apply_bb_updates(m, u.push((p, b)))[p.id] == (p, b->0),
        b is None ==> !apply_bb_updates(m, u.push((p, b))).contains_key(p.id),
{
    assert(u.push((p, b)).drop_last() == u);
}

/// Updates that concern other objects leave the entry of object `k` as it
/// was.
pub proof fn lemma_updates_of_others<B>(m: Map<Id, BBDescriptor<B>>, u: Seq<SendType<B>>, w: Seq<SendType<B>>, k: Id)
    requires
        forall|i: int| 0 <= i < w.len() ==> (#[trigger] w[i]).0.id != k,
    ensures
        apply_bb_updates(m, u + w).contains_key(k) == apply_bb_updates(m, u).contains_key(k),
        apply_bb_updates(m, u).contains_key(k) ==> apply_bb_updates(m, u + w)[k] == apply_bb_updates(m, u)[k],
    decreases w.len(),
{
    if w.len() == 0 {
        assert(u + w == u);
    } else {
        let w0 = w.drop_last();
        assert((u + w).drop_last() == u + w0);
        assert(w[w.len() - 1].0.id != k);
        lemma_updates_of_others(m, u, w0, k);
    }
}

/// Updates leave only registry entries whose properties carry the entry's
/// own id.
pub proof fn lemma_update_ids<B>(m: Map<Id, BBDescriptor<B>>, u: Seq<SendType<B>>, k: Id)
    requires
        forall|j: Id| #[trigger] m.contains_key(j) ==> m[j].0.id == j,
    ensures
        apply_bb_updates(m, u).contains_key(k) ==> apply_bb_updates(m, u)[k].0.id == k,
    decreases u.len(),
{
    if u.len() > 0 {
        lemma_update_ids(m, u.drop_last(), k);
    }
}

/// Fighter read after write: once a registration of fighter `id` has been
/// applied, the fighter registry maps `id` to it; once a removal has been
/// applied, `id` is gone.
pub proof fn lemma_fighter_update_then_get(m: Map<Id, Fighter>, u: Seq<FighterSendType>, id: Id, f: Option<Fighter>)
    ensures
        f is Some ==> apply_fighter_updates(m, u.push((id, f))).contains_key(id)
            && apply_fighter_updates(m, u.push((id, f)))[id] == f->0,
        f is None ==> !apply_fighter_updates(m, u.push((id, f))).contains_key(id),
{
    assert(u.push((id, f)).drop_last() == u);
}


pub struct World<B, D> {
    world: IdMap<BBDescriptor<B>>,
    descr: D,
    pending: Vec<SendType<B>>,
    id_gen: Id,
    player_id: Id,
    buffer: Vec<BBDescriptor<B>>,
    fighters: IdMap<Fighter>,
    fighter_pending: Vec<FighterSendType>,
    fighter_buffer: Vec<Fighter>,
    trigger_id_map: HashMap<TriggerId, Id>,
}

impl<B: Copy, D> World<B, D> {
    /// The box registry, as of the last update.
    pub closed spec fn bb_map(self) -> Map<Id, BBDescriptor<B>> {
        self.world@
    }

    /// The box registry entries in ascending id order.
    pub closed spec fn bb_entries(self) -> Seq<(Id, BBDescriptor<B>)> {
        self.world.entries()
    }

    /// Box updates sent since the last update, oldest first.
    pub closed spec fn bb_pending(self) -> Seq<SendType<B>> {
        self.pending@
    }

    /// The boxes that the physics tests against, as of the last update.
    pub closed spec fn bb_buffer(self) -> Seq<BBDescriptor<B>> {
        self.buffer@
    }

    /// The last id handed out (or the starting point of the generator).
    pub closed spec fn last_id(self) -> Id {
        self.id_gen
    }

    /// What the world was described with when it was made.
    pub closed spec fn spec_descr(self) -> D {
        self.descr
    }

    pub closed spec fn spec_player_id(self) -> Id {
        self.player_id
    }

    pub closed spec fn fighter_map(self) -> Map<Id, Fighter> {
        self.fighters@
    }

    pub closed spec fn fighter_entries(self) -> Seq<(Id, Fighter)> {
        self.fighters.entries()
    }

    pub closed spec fn fighters_pending(self) -> Seq<FighterSendType> {
        self.fighter_pending@
    }

    pub closed spec fn fighter_list(self) -> Seq<Fighter> {
        self.fighter_buffer@
    }

    pub closed spec fn trigger_map(self) -> Map<TriggerId, Id> {
        self.trigger_id_map@
    }

    pub closed spec fn wf(self) -> bool {
        &&& self.world.wf()
        &&& self.fighters.wf()
        &&& forall|k: Id| #[trigger]
            self.world@.contains_key(k) ==> self.world@[k].0.id == k
    }

    /// In a well-formed world both registries keep their entries in
    /// ascending id order, each map is what its entries stand for, and every
    /// box entry carries its own id.
    pub proof fn lemma_entries(self)
        requires
            self.wf(),
        ensures
            keys_ascending(self.bb_entries()),
            self.bb_map() == entries_map(self.bb_entries()),
            keys_ascending(self.fighter_entries()),
            self.fighter_map() == entries_map(self.fighter_entries()),
            forall|k: Id| #[trigger]
                self.bb_map().contains_key(k) ==> self.bb_map()[k].0.id == k,
    {
        self.world.lemma_wf();
        self.fighters.lemma_wf();
    }

    pub fn new(descr: D) -> (w: Self)
        ensures
            w.wf(),
            w.spec_descr() == descr,
            w.bb_map() == Map::<Id, BBDescriptor<B>>::empty(),
            w.bb_entries() == Seq::<(Id, BBDescriptor<B>)>::empty(),
            w.bb_pending() == Seq::<SendType<B>>::empty(),
            w.bb_buffer() == Seq::<BBDescriptor<B>>::empty(),
            w.last_id() == 1,
            w.spec_player_id() == 0,
            w.fighter_map() == Map::<Id, Fighter>::empty(),
            w.fighters_pending() == Seq::<FighterSendType>::empty(),
            w.fighter_list() == Seq::<Fighter>::empty(),
            w.trigger_map() == Map::<TriggerId, Id>::empty(),
    {
        World {
            world: IdMap::new(),
            pending: Vec::new(),
            buffer: Vec::new(),
            fighters: IdMap::new(),
            fighter_pending: Vec::new(),
            fighter_buffer: Vec::new(),
            player_id: 0,
            id_gen: 1,
            trigger_id_map: HashMap::new(),
            descr: descr,
        }
    }

    /// Drops the box registry, the boxes not yet applied and the box list,
    /// and restarts the id generator at `id`.
    pub fn reset(&mut self, id: Id)
        requires
            old(self).wf(),
        ensures
            final(self).wf(),
            final(self).bb_map() == Map::<Id, BBDescriptor<B>>::empty(),
            final(self).bb_entries() == Seq::<(Id, BBDescriptor<B>)>::empty(),
            final(self).bb_pending() == Seq::<SendType<B>>::empty(),
            final(self).bb_buffer() == Seq::<BBDescriptor<B>>::empty(),
            final(self).last_id() == id,
            final(self).spec_player_id() == old(self).spec_player_id(),
            final(self).fighter_map() == old(self).fighter_map(),
            final(self).fighter_entries() == old(self).fighter_entries(),
            final(self).fighters_pending() == old(self).fighters_pending(),
            final(self).fighter_list() == old(self).fighter_list(),
            final(self).trigger_map() == old(self).trigger_map(),
    {
        self.pending = Vec::new();
        self.world.clear();
        self.buffer = Vec::new();
        self.id_gen = id;
    }

    /// Applies every update sent since the last call, oldest first, then
    /// rebuilds the list of collidable boxes and the list of fighters.
    pub fn update(&mut self)
        requires
            old(self).wf(),
        ensures
            final(self).wf(),
            final(self).bb_map() == apply_bb_updates(old(self).bb_map(), old(self).bb_pending()),
            final(self).bb_pending() == Seq::<SendType<B>>::empty(),
            final(self).bb_buffer() == collidable(final(self).bb_entries()),
            final(self).fighter_map() == apply_fighter_updates(
                old(self).fighter_map(),
                old(self).fighters_pending(),
            ),
            final(self).fighters_pending() == Seq::<FighterSendType>::empty(),
            final(self).fighter_list() == fighters_of(final(self).fighter_entries()),
            final(self).last_id() == old(self).last_id(),
            final(self).spec_player_id() == old(self).spec_player_id(),
            final(self).trigger_map() == old(self).trigger_map(),
    {
        apply_bb_pending(&mut self.world, &self.pending);
        self.pending = Vec::new();
        self.buffer = collect_collidable(&self.world);
        apply_fighter_pending(&mut self.fighters, &self.fighter_pending);
        self.fighter_pending = Vec::new();
        self.fighter_buffer = collect_fighters(&self.fighters);
    }

    /// The box and properties of object `id`, as of the last update.
    pub fn get(&self, id: Id) -> (r: Option<BBDescriptor<B>>)
        requires
            self.wf(),
        ensures
            r == (if self.bb_map().contains_key(id) {
                Some(self.bb_map()[id])
            } else {
                None::<BBDescriptor<B>>
            }),
    {
        self.world.get(id)
    }

    /// A fresh id: one more than the last one handed out.
    pub fn generate_id(&mut self) -> (r: Id)
        requires
            old(self).last_id() < u32::MAX,
        ensures
            r == old(self).last_id() + 1,
            final(self).last_id() == r,
            final(self).bb_map() == old(self).bb_map(),
            final(self).bb_entries() == old(self).bb_entries(),
            final(self).bb_pending() == old(self).bb_pending(),
            final(self).bb_buffer() == old(self).bb_buffer(),
            final(self).spec_player_id() == old(self).spec_player_id(),
            final(self).fighter_map() == old(self).fighter_map(),
            final(self).fighter_entries() == old(self).fighter_entries(),
            final(self).fighters_pending() == old(self).fighters_pending(),
            final(self).fighter_list() == old(self).fighter_list(),
            final(self).trigger_map() == old(self).trigger_map(),
            final(self).wf() == old(self).wf(),
    {
        self.id_gen = self.id_gen + 1;
        self.id_gen
    }

    pub fn descr(&self) -> (r: &D)
        ensures
            *r == self.spec_descr(),
    {
        &self.descr
    }

    /// The last id handed out (or the starting point of the generator).
    pub fn last_generated_id(&self) -> (r: Id)
        ensures
            r == self.last_id(),
    {
        self.id_gen
    }

    pub fn player_id(&self) -> (r: Id)
        ensures
            r == self.spec_player_id(),
    {
        self.player_id
    }

    /// Queues an update of the box registry for the next [`World::update`].
    pub fn send(&mut self, p: BBProperties, bb: Option<B>)
        ensures
            final(self).bb_pending() == old(self).bb_pending().push((p, bb)),
            final(self).bb_map() == old(self).bb_map(),
            final(self).bb_entries() == old(self).bb_entries(),
            final(self).bb_buffer() == old(self).bb_buffer(),
            final(self).last_id() == old(self).last_id(),
            final(self).spec_player_id() == old(self).spec_player_id(),
            final(self).fighter_map() == old(self).fighter_map(),
            final(self).fighter_entries() == old(self).fighter_entries(),
            final(self).fighters_pending() == old(self).fighters_pending(),
            final(self).fighter_list() == old(self).fighter_list(),
            final(self).trigger_map() == old(self).trigger_map(),
            final(self).wf() == old(self).wf(),
    {
        self.pending.push((p, bb));
    }

    /// The boxes that take part in collision tests, in ascending id order.
    pub fn buffer(&self) -> (r: &Vec<BBDescriptor<B>>)
        ensures
            r@ == self.bb_buffer(),
    {
        &self.buffer
    }

    /// Queues the registration of fighter `id` of the given faction.
    pub fn add_fighter(&mut self, id: Id, faction: Faction)
        ensures
            final(self).fighters_pending() == old(self).fighters_pending().push(
                (id, Some(Fighter { id: id, allegiance: Some(faction) })),
            ),
            final(self).fighter_map() == old(self).fighter_map(),
            final(self).fighter_entries() == old(self).fighter_entries(),
            final(self).fighter_list() == old(self).fighter_list(),
            final(self).bb_map() == old(self).bb_map(),
            final(self).bb_entries() == old(self).bb_entries(),
            final(self).bb_pending() == old(self).bb_pending(),
            final(self).bb_buffer() == old(self).bb_buffer(),
            final(self).last_id() == old(self).last_id(),
            final(self).spec_player_id() == old(self).spec_player_id(),
            final(self).trigger_map() == old(self).trigger_map(),
            final(self).wf() == old(self).wf(),
    {
        let f = Some(Fighter { id: id, allegiance: Some(faction) });
        self.fighter_pending.push((id, f));
    }

    /// Queues the removal of fighter `id`.
    pub fn remove_fighter(&mut self, id: Id)
        ensures
            final(self).fighters_pending() == old(self).fighters_pending().push((id, None)),
            final(self).fighter_map() == old(self).fighter_map(),
            final(self).fighter_entries() == old(self).fighter_entries(),
            final(self).fighter_list() == old(self).fighter_list(),
            final(self).bb_map() == old(self).bb_map(),
            final(self).bb_entries() == old(self).bb_entries(),
            final(self).bb_pending() == old(self).bb_pending(),
            final(self).bb_buffer() == old(self).bb_buffer(),
            final(self).last_id() == old(self).last_id(),
            final(self).spec_player_id() == old(self).spec_player_id(),
            final(self).trigger_map() == old(self).trigger_map(),
            final(self).wf() == old(self).wf(),
    {
        self.fighter_pending.push((id, None));
    }

    /// The registered fighters, in ascending id order, as of the last update.
    pub fn fighter_buffer(&self) -> (r: &Vec<Fighter>)
        ensures
            r@ == self.fighter_list(),
    {
        &self.fighter_buffer
    }

    pub fn add_to_trigger_id_map(&mut self, trigger_id: TriggerId, id: Id)
        ensures
            final(self).trigger_map() == old(self).trigger_map().insert(trigger_id, id),
            final(self).bb_map() == old(self).bb_map(),
            final(self).bb_entries() == old(self).bb_entries(),
            final(self).bb_pending() == old(self).bb_pending(),
            final(self).bb_buffer() == old(self).bb_buffer(),
            final(self).last_id() == old(self).last_id(),
            final(self).spec_player_id() == old(self).spec_player_id(),
            final(self).fighter_map() == old(self).fighter_map(),
            final(self).fighter_entries() == old(self).fighter_entries(),
            final(self).fighters_pending() == old(self).fighters_pending(),
            final(self).fighter_list() == old(self).fighter_list(),
            final(self).wf() == old(self).wf(),
    {
        self.trigger_id_map.insert(trigger_id, id);
    }

    pub fn get_from_trigger_id(&mut self, trigger_id: TriggerId) -> (r: Option<Id>)
        ensures
            r == (if old(self).trigger_map().contains_key(trigger_id) {
                Some(old(self).trigger_map()[trigger_id])
            } else {
                None::<Id>
            }),
            *final(self) == *old(self),
    {
        match self.trigger_id_map.get(&trigger_id) {
            Some(id) => Some(*id),
            None => None,
        }
    }
}

/// The ids that two successive calls of `generate_id` hand out differ: the
/// second is the larger. (`w0`, `w1`, `w2` are the world before, between
/// and after the two calls, related as `generate_id` promises.)
pub proof fn lemma_generated_ids_increase<B: Copy, D>(w0: World<B, D>, r1: Id, w1: World<B, D>, r2: Id, w2: World<B, D>)
    requires
        r1 == w0.last_id() + 1,
        w1.last_id() == r1,
        r2 == w1.last_id() + 1,
        w2.last_id() == r2,
    ensures
        r1 < r2,
        r1 != r2,
{
}

/// Ids from a fresh world: `ws[0]` is a world as `World::new` makes it,
/// and each `ids[j]` is handed out by a call of `generate_id` that turns
/// `ws[j]` into `ws[j + 1]`. Then the call number `j` (from 0) hands out
/// `j + 2`; the ids strictly increase, and none is the player's id 0.
pub proof fn lemma_ids_from_new<B: Copy, D>(ws: Seq<World<B, D>>, ids: Seq<Id>)
    requires
        ws.len() == ids.len() + 1,
        ws[0].last_id() == 1,
        ws[0].spec_player_id() == 0,
        forall|j: int|
            0 <= j < ids.len() ==> #[trigger] ids[j] == ws[j].last_id() + 1 && ws[j + 1].last_id()
                == ids[j] && ws[j + 1].spec_player_id() == ws[j].spec_player_id(),
    ensures
        forall|j: int| 0 <= j < ids.len() ==> #[trigger] ids[j] == j + 2,
        forall|j: int| 0 <= j < ids.len() ==> #[trigger] ids[j] != ws[j + 1].spec_player_id(),
        forall|a: int, b: int| 0 <= a < b < ids.len() ==> ids[a] < ids[b],
{
    assert forall|j: int| 0 <= j <= ids.len() implies #[trigger] ws[j].last_id() == j + 1
        && ws[j].spec_player_id() == 0 by {
        lemma_last_id_after(ws, ids, j);
    }
    assert forall|j: int| 0 <= j < ids.len() implies #[trigger] ids[j] == j + 2 by {
        assert(ws[j].last_id() == j + 1);
    }
    assert forall|j: int| 0 <= j < ids.len() implies #[trigger] ids[j] != ws[j + 1].spec_player_id() by {
        lemma_last_id_after(ws, ids, j + 1);
        assert(ids[j] == j + 2);
    }
    assert forall|a: int, b: int| 0 <= a < b < ids.len() implies ids[a] < ids[b] by {
        assert(ids[a] == a + 2);
        assert(ids[b] == b + 2);
    }
}

proof fn lemma_last_id_after<B: Copy, D>(ws: Seq<World<B, D>>, ids: Seq<Id>, j: int)
    requires
        ws.len() == ids.len() + 1,
        ws[0].last_id() == 1,
        ws[0].spec_player_id() == 0,
        forall|j: int|
            0 <= j < ids.len() ==> #[trigger] ids[j] == ws[j].last_id() + 1 && ws[j + 1].last_id()
                == ids[j] && ws[j + 1].spec_player_id() == ws[j].spec_player_id(),
        0 <= j <= ids.len(),
    ensures
        ws[j].last_id() == j + 1,
        ws[j].spec_player_id() == 0,
    decreases j,
{
    if j > 0 {
        lemma_last_id_after(ws, ids, j - 1);
        assert(ids[j - 1] == ws[j - 1].last_id() + 1);
    }
}

/// The position of the last update of `u` that concerns object `k`, if
/// any does.
pub open spec fn last_update_for<B>(u: Seq<SendType<B>>, k: Id) -> Option<int>
    decreases u.len(),
{
    if u.len() == 0 {
        None
    } else if u.last().0.id == k {
        Some(u.len() - 1)
    } else {
        last_update_for(u.drop_last(), k)
    }
}

/// The last message wins: after a batch of updates `u` is applied to the
/// registry `m`, object `k` has the box of the last update that concerns it,
/// or no entry if that update removed it; if no update concerns it, its
/// entry is as it was.
pub proof fn lemma_last_update_wins<B>(m: Map<Id, BBDescriptor<B>>, u: Seq<SendType<B>>, k: Id)
    ensures
        match last_update_for(u, k) {
            Some(j) => {
                &&& 0 <= j < u.len()
                &&& u[j].0.id == k
                &&& forall|l: int| j < l < u.len() ==> (#[trigger] u[l]).0.id != k
                &&& match u[j].1 {
                    Some(bb) => apply_bb_updates(m, u).contains_key(k) && apply_bb_updates(m, u)[k]
                        == (u[j].0, bb),
                    None => !apply_bb_updates(m, u).contains_key(k),
                }
            },
            None => {
                &&& forall|l: int| 0 <= l < u.len() ==> (#[trigger] u[l]).0.id != k
                &&& apply_bb_updates(m, u).contains_key(k) == m.contains_key(k)
                &&& m.contains_key(k) ==> apply_bb_updates(m, u)[k] == m[k]
            },
        },
    decreases u.len(),
{
    if u.len() > 0 {
        let t = u.drop_last();
        lemma_last_update_wins(m, t, k);
        if u.last().0.id != k {
            match last_update_for(t, k) {
                Some(j) => {
                    assert forall|l: int| j < l < u.len() implies (#[trigger] u[l]).0.id != k by {
                        if l < u.len() - 1 {
                            assert(u[l] == t[l]);
                        }
                    }
                    assert(u[j] == t[j]);
                },
                None => {
                    assert forall|l: int| 0 <= l < u.len() implies (#[trigger] u[l]).0.id != k by {
                        if l < u.len() - 1 {
                            assert(u[l] == t[l]);
                        }
                    }
                },
            }
        }
    }
}

/// The position of the last update of `u` that concerns fighter `k`.
pub open spec fn last_fighter_update_for(u: Seq<FighterSendType>, k: Id) -> Option<int>
    decreases u.len(),
{
    if u.len() == 0 {
        None
    } else if u.last().0 == k {
        Some(u.len() - 1)
    } else {
        last_fighter_update_for(u.drop_last(), k)
    }
}

/// The last message wins for fighters too: after a batch of registrations
/// and removals, fighter `k` is as its last registration left it, absent if
/// its last update removed it, and unchanged if no update concerns it.
pub proof fn lemma_last_fighter_update_wins(m: Map<Id, Fighter>, u: Seq<FighterSendType>, k: Id)
    ensures
        match last_fighter_update_for(u, k) {
            Some(j) => {
                &&& 0 <= j < u.len()
                &&& u[j].0 == k
                &&& forall|l: int| j < l < u.len() ==> (#[trigger] u[l]).0 != k
                &&& match u[j].1 {
                    Some(f) => apply_fighter_updates(m, u).contains_key(k) && apply_fighter_updates(m, u)[k] == f,
                    None => !apply_fighter_updates(m, u).contains_key(k),
                }
            },
            None => {
                &&& forall|l: int| 0 <= l < u.len() ==> (#[trigger] u[l]).0 != k
                &&& apply_fighter_updates(m, u).contains_key(k) == m.contains_key(k)
                &&& m.contains_key(k) ==> apply_fighter_updates(m, u)[k] == m[k]
            },
        },
    decreases u.len(),
{
    if u.len() > 0 {
        let t = u.drop_last();
        lemma_last_fighter_update_wins(m, t, k);
        if u.last().0 != k {
            match last_fighter_update_for(t, k) {
                Some(j) => {
                    assert forall|l: int| j < l < u.len() implies (#[trigger] u[l]).0 != k by {
                        if l < u.len() - 1 {
                            assert(u[l] == t[l]);
                        }
                    }
                    assert(u[j] == t[j]);
                },
                None => {
                    assert forall|l: int| 0 <= l < u.len() implies (#[trigger] u[l]).0 != k by {
                        if l < u.len() - 1 {
                            assert(u[l] == t[l]);
                        }
                    }
                },
            }
        }
    }
}

pub open spec fn collides_at_all<B>(d: BBDescriptor<B>) -> bool {
    !d.0.owner_type.spec_contains(nocollide_kind())
}

pub open spec fn collidable_pred<B>() -> spec_fn(BBDescriptor<B>) -> bool {
    |d: BBDescriptor<B>| collides_at_all(d)
}

pub open spec fn descriptors_of<B>(s: Seq<(Id, BBDescriptor<B>)>) -> Seq<BBDescriptor<B>> {
    s.map_values(|e: (Id, BBDescriptor<B>)| e.1)
}

/// The box list that `update` builds is the stored descriptors, in id order,
/// with those marked "no collide" left out.
pub proof fn lemma_collidable_is_filter<B>(s: Seq<(Id, BBDescriptor<B>)>)
    ensures
        collidable(s) == descriptors_of(s).filter(collidable_pred::<B>()),
    decreases s.len(),
{
    reveal(Seq::filter);
    let ds = descriptors_of(s);
    let pred = collidable_pred::<B>();
    if s.len() > 0 {
        lemma_collidable_is_filter(s.drop_last());
        assert(ds.drop_last() =~= descriptors_of(s.drop_last()));
        assert(ds.last() == s.last().1);
        assert(pred(ds.last()) == collides_at_all(s.last().1));
        assert(ds.filter(pred) == (if pred(ds.last()) {
            ds.drop_last().filter(pred).push(ds.last())
        } else {
            ds.drop_last().filter(pred)
        }));
    } else {
        assert(ds =~= Seq::<BBDescriptor<B>>::empty());
    }
}

} // verus!
