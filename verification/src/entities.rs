//! The message handling of the game's objects: the player's control state,
//! dialogue triggers, things the player can touch, and the choice of
//! fighters an enemy may target.
use vstd::prelude::*;
use crate::collision::{Collision, Id};
use crate::flags::{BBOwnerType, HumanoidInput};
use crate::game::{MetaCommand, ObjMessage};
use crate::input::{Key, player_press, player_release, spec_player_flag};
use crate::world::{Faction, Fighter};

verus! {

/// The player's state as changed by one message: collisions are kept for
/// the next tick, a grapple hook starts a swing towards its point, and the
/// end of a grapple ends the swing. Triggers are not for the player.
pub open spec fn player_after_message<C, P>(
    state: (Seq<C>, bool, Option<P>),
    m: ObjMessage<C, P>,
) -> (Seq<C>, bool, Option<P>) {
    match m {
        ObjMessage::MCollision(c) => (state.0.push(c), state.1, state.2),
        ObjMessage::MPlayerStartGrapple(p) => (state.0, true, Some(p)),
        ObjMessage::MPlayerEndGrapple => (state.0, false, None),
        ObjMessage::MTrigger => state,
    }
}

pub open spec fn player_after_messages<C, P>(
    state: (Seq<C>, bool, Option<P>),
    msgs: Seq<ObjMessage<C, P>>,
) -> (Seq<C>, bool, Option<P>)
    decreases msgs.len(),
{
    if msgs.len() == 0 {
        state
    } else {
        player_after_message(player_after_messages(state, msgs.drop_last()), msgs.last())
    }
}

/// What the player holds between ticks besides its physics: the movement
/// keys held, the collisions of the last tick, and the grapple swing.
pub struct PlayerControl<C, P> {
    input: HumanoidInput,
    collision_buffer: Vec<C>,
    grappling: bool,
    grapple_target: Option<P>,
}

impl<C, P> PlayerControl<C, P> {
    pub closed spec fn spec_input(self) -> HumanoidInput {
        self.input
    }

    pub closed spec fn collisions(self) -> Seq<C> {
        self.collision_buffer@
    }

    pub closed spec fn spec_grappling(self) -> bool {
        self.grappling
    }

    pub closed spec fn spec_grapple_target(self) -> Option<P> {
        self.grapple_target
    }

    pub fn new() -> (r: Self)
        ensures
            r.spec_input().bits == 0,
            r.collisions() == Seq::<C>::empty(),
            !r.spec_grappling(),
            r.spec_grapple_target() is None,
    {
        PlayerControl {
            input: HumanoidInput::none(),
            collision_buffer: Vec::new(),
            grappling: false,
            grapple_target: None,
        }
    }

    pub fn press(&mut self, key: Key)
        ensures
            final(self).spec_input().bits == old(self).spec_input().bits | spec_player_flag(key),
            final(self).collisions() == old(self).collisions(),
            final(self).spec_grappling() == old(self).spec_grappling(),
            final(self).spec_grapple_target() == old(self).spec_grapple_target(),
    {
        self.input = player_press(self.input, key);
    }

    pub fn release(&mut self, key: Key)
        ensures
            final(self).spec_input().bits == old(self).spec_input().bits & !spec_player_flag(key),
            final(self).collisions() == old(self).collisions(),
            final(self).spec_grappling() == old(self).spec_grappling(),
            final(self).spec_grapple_target() == old(self).spec_grapple_target(),
    {
        self.input = player_release(self.input, key);
    }

    /// Takes in the messages of a tick, oldest first.
    pub fn handle_messages(&mut self, msgs: Vec<ObjMessage<C, P>>)
        ensures
            (final(self).collisions(), final(self).spec_grappling(), final(self).spec_grapple_target())
                == player_after_messages(
                (old(self).collisions(), old(self).spec_grappling(), old(self).spec_grapple_target()),
                msgs@,
            ),
            final(self).spec_input() == old(self).spec_input(),
    {
        let ghost start = (self.collision_buffer@, self.grappling, self.grapple_target);
        let ghost all = msgs@;
        let n = msgs.len();
        let mut rest = msgs;
        let mut i: usize = 0;
        while rest.len() > 0
            invariant
                i + rest@.len() == n,
                n == all.len(),
                rest@ == all.subrange(i as int, n as int),
                (self.collision_buffer@, self.grappling, self.grapple_target) == player_after_messages(
                    start,
                    all.take(i as int),
                ),
                self.input == old(self).input,
            decreases rest@.len(),
        {
            let m = rest.remove(0);
            assert(all.take(i + 1).drop_last() == all.take(i as int));
            assert(all[i as int] == m);
            match m {
                ObjMessage::MCollision(c) => {
                    self.collision_buffer.push(c);
                },
                ObjMessage::MPlayerStartGrapple(p) => {
                    self.grappling = true;
                    self.grapple_target = Some(p);
                },
                ObjMessage::MPlayerEndGrapple => {
                    self.grappling = false;
                    self.grapple_target = None;
                },
                ObjMessage::MTrigger => {},
            }
            i = i + 1;
        }
        assert(all.take(n as int) == all);
    }

    /// Hands over the collisions kept since the last call, oldest first.
    pub fn take_collisions(&mut self) -> (cs: Vec<C>)
        ensures
            cs@ == old(self).collisions(),
            final(self).collisions() == Seq::<C>::empty(),
            final(self).spec_input() == old(self).spec_input(),
            final(self).spec_grappling() == old(self).spec_grappling(),
            final(self).spec_grapple_target() == old(self).spec_grapple_target(),
    {
        let mut cs: Vec<C> = Vec::new();
        std::mem::swap(&mut cs, &mut self.collision_buffer);
        cs
    }

    pub fn grappling(&self) -> (r: bool)
        ensures
            r == self.spec_grappling(),
    {
        self.grappling
    }

    pub fn grapple_target(&self) -> (r: &Option<P>)
        ensures
            *r == self.spec_grapple_target(),
    {
        &self.grapple_target
    }

    /// The movement keys that drive the player: the held ones, plus falling
    /// through platforms while swinging on the grapple.
    pub fn movement_input(&self) -> (r: HumanoidInput)
        ensures
            r.bits == (if self.spec_grappling() {
                self.spec_input().bits | 0b00000100
            } else {
                self.spec_input().bits
            }),
    {
        if self.grappling {
            self.input.union(HumanoidInput::fall())
        } else {
            self.input
        }
    }
}

/// A grapple swing lasts from the hook message to the end message: after a
/// start message the player swings towards its point, after an end message
/// it does not swing, and a collision message leaves the swing as it was.
pub proof fn lemma_grapple_messages<C, P>(state: (Seq<C>, bool, Option<P>), msgs: Seq<ObjMessage<C, P>>, p: P, c: C)
    ensures
        player_after_messages(state, msgs.push(ObjMessage::MPlayerStartGrapple(p))).1,
        player_after_messages(state, msgs.push(ObjMessage::MPlayerStartGrapple(p))).2 == Some(p),
        !player_after_messages(state, msgs.push(ObjMessage::MPlayerEndGrapple)).1,
        player_after_messages(state, msgs.push(ObjMessage::MCollision(c))).1 == player_after_messages(state, msgs).1,
        player_after_messages(state, msgs.push(ObjMessage::MCollision(c))).0 == player_after_messages(state, msgs).0.push(c),
{
    assert(msgs.push(ObjMessage::<C, P>::MPlayerStartGrapple(p)).drop_last() == msgs);
    assert(msgs.push(ObjMessage::<C, P>::MPlayerEndGrapple).drop_last() == msgs);
    assert(msgs.push(ObjMessage::<C, P>::MCollision(c)).drop_last() == msgs);
}

/// How each message changes what the player keeps, over any history `msgs`:
/// a collision is appended to the kept collisions and leaves the swing as it
/// was; a start-grapple message starts a swing towards its point, an
/// end-grapple message ends the swing and clears the target, and neither of
/// them touches the kept collisions; a trigger message changes nothing; no
/// message at all changes nothing.
pub proof fn lemma_player_message_steps<C, P>(state: (Seq<C>, bool, Option<P>), msgs: Seq<ObjMessage<C, P>>, p: P, c: C)
    ensures
        player_after_messages(state, Seq::empty()) == state,
        ({
            let before = player_after_messages(state, msgs);
            let after_end = player_after_messages(state, msgs.push(ObjMessage::MPlayerEndGrapple));
            let after_start = player_after_messages(state, msgs.push(ObjMessage::MPlayerStartGrapple(p)));
            let after_hit = player_after_messages(state, msgs.push(ObjMessage::MCollision(c)));
            let after_trigger = player_after_messages(state, msgs.push(ObjMessage::MTrigger));
            &&& after_end.0 == before.0 && !after_end.1 && after_end.2 is None
            &&& after_start.0 == before.0 && after_start.1 && after_start.2 == Some(p)
            &&& after_hit.0 == before.0.push(c) && after_hit.1 == before.1 && after_hit.2 == before.2
            &&& after_trigger == before
        }),
{
    assert(msgs.push(ObjMessage::<C, P>::MPlayerStartGrapple(p)).drop_last() == msgs);
    assert(msgs.push(ObjMessage::<C, P>::MPlayerEndGrapple).drop_last() == msgs);
    assert(msgs.push(ObjMessage::<C, P>::MCollision(c)).drop_last() == msgs);
    assert(msgs.push(ObjMessage::<C, P>::MTrigger).drop_last() == msgs);
}

/// The number of trigger messages in `msgs`.
pub open spec fn trigger_count<C, P>(msgs: Seq<ObjMessage<C, P>>) -> nat
    decreases msgs.len(),
{
    if msgs.len() == 0 {
        0
    } else {
        trigger_count(msgs.drop_last()) + if msgs.last() is MTrigger {
            1nat
        } else {
            0nat
        }
    }
}

/// The priority of a line spoken by a dialogue trigger.
pub const DIALOGUE_PRIORITY: u32 = 9;

/// A line of dialogue that is spoken once, when its trigger first fires.
pub struct DialogueLogic {
    pub text: String,
    pub triggered: bool,
}

impl DialogueLogic {
    /// The commands issued on a tick: until the line has been spoken, each
    /// trigger message of the tick asks for it; from then on nothing.
    pub fn tick<C, P, G, M, F>(&mut self, messages: &Vec<ObjMessage<C, P>>) -> (cmds: Vec<MetaCommand<G, M, F>>)
        ensures
            final(self).text == old(self).text,
            old(self).triggered ==> cmds@.len() == 0 && final(self).triggered,
            !old(self).triggered ==> {
                &&& cmds@.len() == trigger_count(messages@)
                &&& final(self).triggered == (trigger_count(messages@) > 0)
            },
            forall|i: int|
                0 <= i < cmds@.len() ==> #[trigger] cmds@[i] == MetaCommand::<G, M, F>::Dialogue(
                    DIALOGUE_PRIORITY,
                    old(self).text,
                ),
    {
        let mut cmds: Vec<MetaCommand<G, M, F>> = Vec::new();
        if !self.triggered {
            let n = messages.len();
            let mut i: usize = 0;
            while i < n
                invariant
                    n == messages@.len(),
                    i <= n,
                    self.text == old(self).text,
                    cmds@.len() == trigger_count(messages@.take(i as int)),
                    self.triggered == (trigger_count(messages@.take(i as int)) > 0),
                    forall|j: int|
                        0 <= j < cmds@.len() ==> #[trigger] cmds@[j] == MetaCommand::<G, M, F>::Dialogue(
                            DIALOGUE_PRIORITY,
                            old(self).text,
                        ),
                decreases n - i,
            {
                assert(messages@.take(i + 1).drop_last() == messages@.take(i as int));
                match &messages[i] {
                    ObjMessage::MTrigger => {
                        cmds.push(MetaCommand::Dialogue(DIALOGUE_PRIORITY, self.text.clone()));
                        self.triggered = true;
                    },
                    _ => {},
                }
                i = i + 1;
            }
            assert(messages@.take(n as int) == messages@);
        }
        cmds
    }
}

pub open spec fn player_kind() -> BBOwnerType {
    BBOwnerType { bits: 0b00000100 }
}

/// The number of collision messages in `msgs` with a box of the player.
pub open spec fn player_touch_count<B, P>(msgs: Seq<ObjMessage<Collision<B>, P>>) -> nat
    decreases msgs.len(),
{
    if msgs.len() == 0 {
        0
    } else {
        player_touch_count(msgs.drop_last()) + match msgs.last() {
            ObjMessage::MCollision(c) => if c.other_type.spec_contains(player_kind()) {
                1nat
            } else {
                0nat
            },
            _ => 0nat,
        }
    }
}

/// How many times something the player can pick up was touched by the
/// player on a tick: once for each collision message with a player box.
pub fn player_touches<B: Copy, P>(messages: &Vec<ObjMessage<Collision<B>, P>>) -> (n: usize)
    ensures
        n == player_touch_count(messages@),
{
    let len = messages.len();
    let mut count: usize = 0;
    let mut i: usize = 0;
    while i < len
        invariant
            len == messages@.len(),
            i <= len,
            count == player_touch_count(messages@.take(i as int)),
            count <= i,
        decreases len - i,
    {
        assert(messages@.take(i + 1).drop_last() == messages@.take(i as int));
        match &messages[i] {
            ObjMessage::MCollision(c) => {
                if c.other_type.contains(BBOwnerType::player()) {
                    count = count + 1;
                }
            },
            _ => {},
        }
        i = i + 1;
    }
    assert(messages@.take(len as int) == messages@);
    count
}

/// A fighter is a possible target for a fighter of `faction` when it
/// belongs to another faction or to none.
pub open spec fn spec_is_hostile(f: Fighter, faction: Faction) -> bool {
    match f.allegiance {
        Some(their_faction) => their_faction != faction,
        None => true,
    }
}

pub fn is_hostile(f: &Fighter, faction: Faction) -> (r: bool)
    ensures
        r == spec_is_hostile(*f, faction),
{
    match f.allegiance {
        Some(their_faction) => their_faction != faction,
        None => true,
    }
}

pub open spec fn hostile_of(fs: Seq<Fighter>, faction: Faction) -> Seq<Fighter>
    decreases fs.len(),
{
    if fs.len() == 0 {
        Seq::empty()
    } else {
        let prev = hostile_of(fs.drop_last(), faction);
        if spec_is_hostile(fs.last(), faction) {
            prev.push(fs.last())
        } else {
            prev
        }
    }
}

/// The fighters that a fighter of `faction` may target, in the given order.
pub fn hostile_fighters(fighters: &Vec<Fighter>, faction: Faction) -> (r: Vec<Fighter>)
    ensures
        r@ == hostile_of(fighters@, faction),
{
    let mut r: Vec<Fighter> = Vec::new();
    let n = fighters.len();
    let mut i: usize = 0;
    while i < n
        invariant
            n == fighters@.len(),
            i <= n,
            r@ == hostile_of(fighters@.take(i as int), faction),
        decreases n - i,
    {
        assert(fighters@.take(i + 1).drop_last() == fighters@.take(i as int));
        let f = fighters[i];
        if is_hostile(&f, faction) {
            r.push(f);
        }
        i = i + 1;
    }
    assert(fighters@.take(n as int) == fighters@);
    r
}

/// Hostility by faction, for every fighter and faction: a fighter of the
/// same faction is never hostile, one of another faction always is, and one
/// of no faction is hostile to everybody.
pub proof fn lemma_hostility(f: Fighter, faction: Faction)
    ensures
        f.allegiance == Some(faction) ==> !spec_is_hostile(f, faction),
        f.allegiance is Some && f.allegiance != Some(faction) ==> spec_is_hostile(f, faction),
        f.allegiance is None ==> spec_is_hostile(f, faction),
{
}

/// A fighter never targets its own faction: every fighter that
/// `hostile_fighters` keeps is hostile, and every hostile one is kept.
pub proof fn lemma_hostile_members(fs: Seq<Fighter>, faction: Faction, f: Fighter)
    ensures
        hostile_of(fs, faction).contains(f) <==> (fs.contains(f) && spec_is_hostile(f, faction)),
    decreases fs.len(),
{
    if fs.len() > 0 {
        let t = fs.drop_last();
        lemma_hostile_members(t, faction, f);
        let prev = hostile_of(t, faction);
        let cur = hostile_of(fs, faction);
        if cur.contains(f) && !prev.contains(f) {
            let k = choose|k: int| 0 <= k < cur.len() && cur[k] == f;
            assert(k == prev.len());
            assert(fs[fs.len() - 1] == f);
        }
        if prev.contains(f) {
            let k = choose|k: int| 0 <= k < prev.len() && prev[k] == f;
            if spec_is_hostile(fs.last(), faction) {
                assert(cur[k] == f);
            }
        }
        if fs.contains(f) && spec_is_hostile(f, faction) {
            let i = choose|i: int| 0 <= i < fs.len() && fs[i] == f;
            if i < fs.len() - 1 {
                assert(t[i] == f);
            } else {
                assert(cur[prev.len() as int] == f);
            }
        }
        if t.contains(f) {
            let i = choose|i: int| 0 <= i < t.len() && t[i] == f;
            assert(fs[i] == f);
        }
    }
}

} // verus!
