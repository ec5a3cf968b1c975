//! Weapons, and the rule by which an arrow is spent.
use vstd::prelude::*;
use crate::collision::{Collision, Id};
use crate::flags::BBOwnerType;
use crate::game::{MetaCommand, ObjMessage};

verus! {

#[derive(Clone, Copy, PartialEq, Eq, Structural, Debug)]
pub enum Weapon {
    Melee,
    Bow,
}

/// A melee weapon: it strikes at no distance.
pub struct Melee {}

/// A bow: it fires arrows from a distance.
pub struct Bow {}

pub open spec fn player_kind() -> BBOwnerType {
    BBOwnerType { bits: 0b00000100 }
}

pub open spec fn enemy_kind() -> BBOwnerType {
    BBOwnerType { bits: 0b00001000 }
}

pub open spec fn block_kind() -> BBOwnerType {
    BBOwnerType { bits: 0b00000010 }
}

/// The arrow fired by `creator` is spent when it meets a player, an enemy
/// other than its creator, or a block.
pub open spec fn spec_arrow_spent(creator: Id, other_type: BBOwnerType, other_id: Id) -> bool {
    other_type.spec_contains(player_kind()) || other_type.spec_contains(enemy_kind()) && other_id
        != creator || other_type.spec_contains(block_kind())
}

/// The number of collision messages of `msgs` that spend the arrow.
pub open spec fn spent_count<B, P>(creator: Id, msgs: Seq<ObjMessage<Collision<B>, P>>) -> nat
    decreases msgs.len(),
{
    if msgs.len() == 0 {
        0
    } else {
        let prev = spent_count(creator, msgs.drop_last());
        match msgs.last() {
            ObjMessage::MCollision(c) => if spec_arrow_spent(creator, c.other_type, c.other_id) {
                prev + 1
            } else {
                prev
            },
            _ => prev,
        }
    }
}

/// An arrow in flight.
pub struct ArrowLogic {
    pub creator: Id,
}

impl ArrowLogic {
    pub fn is_spent_by(&self, other_type: BBOwnerType, other_id: Id) -> (r: bool)
        ensures
            r == spec_arrow_spent(self.creator, other_type, other_id),
    {
        other_type.contains(BBOwnerType::player()) || other_type.contains(BBOwnerType::enemy())
            && other_id != self.creator || other_type.contains(BBOwnerType::block())
    }

    /// The commands that arrow `id` issues on a tick, given its messages:
    /// its own removal once for each collision that spends it, then the
    /// pull of gravity.
    pub fn tick<B: Copy, P, G, M, F: Copy>(
        &self,
        id: Id,
        messages: &Vec<ObjMessage<Collision<B>, P>>,
        gravity: F,
    ) -> (cmds: Vec<MetaCommand<G, M, F>>)
        ensures
            cmds@.len() == spent_count(self.creator, messages@) + 1,
            forall|i: int|
                0 <= i < cmds@.len() - 1 ==> #[trigger] cmds@[i] == MetaCommand::<G, M, F>::RemoveObject(id),
            cmds@.last() == MetaCommand::<G, M, F>::ApplyForce(id, gravity),
    {
        let mut cmds: Vec<MetaCommand<G, M, F>> = Vec::new();
        let n = messages.len();
        let mut i: usize = 0;
        while i < n
            invariant
                n == messages@.len(),
                i <= n,
                cmds@.len() == spent_count(self.creator, messages@.take(i as int)),
                forall|j: int|
                    0 <= j < cmds@.len() ==> #[trigger] cmds@[j] == MetaCommand::<G, M, F>::RemoveObject(id),
            decreases n - i,
        {
            assert(messages@.take(i + 1).drop_last() == messages@.take(i as int));
            match &messages[i] {
                ObjMessage::MCollision(c) => {
                    if self.is_spent_by(c.other_type, c.other_id) {
                        cmds.push(MetaCommand::RemoveObject(id));
                    }
                },
                _ => {},
            }
            i = i + 1;
        }
        assert(messages@.take(n as int) == messages@);
        cmds.push(MetaCommand::ApplyForce(id, gravity));
        cmds
    }
}

/// Whom an arrow hits, for every kind and id of what it meets: any player
/// or block spends it; an enemy spends it unless that enemy shot it; a box
/// that is none of player, enemy and block (such as a platform or another
/// arrow) never spends it, and neither does its own shooter unless the
/// shooter's box is also a player's or a block's.
pub proof fn lemma_arrow_targets(creator: Id, other_type: BBOwnerType, other_id: Id)
    ensures
        other_type.bits & 0b00000100 != 0 ==> spec_arrow_spent(creator, other_type, other_id),
        other_type.bits & 0b00000010 != 0 ==> spec_arrow_spent(creator, other_type, other_id),
        other_type.bits & 0b00001000 != 0 && other_id != creator ==> spec_arrow_spent(
            creator,
            other_type,
            other_id,
        ),
        other_type.bits & 0b00001110 == 0 ==> !spec_arrow_spent(creator, other_type, other_id),
        other_id == creator && other_type.bits & 0b00000110 == 0 ==> !spec_arrow_spent(
            creator,
            other_type,
            other_id,
        ),
{
    let b = other_type.bits;
    assert(((b & 4u16 == 4u16) == (b & 4u16 != 0u16)) && ((b & 2u16 == 2u16) == (b & 2u16 != 0u16))
        && ((b & 8u16 == 8u16) == (b & 8u16 != 0u16)) && ((b & 14u16 == 0u16) ==> (b & 4u16 == 0u16
        && b & 2u16 == 0u16 && b & 8u16 == 0u16)) && ((b & 6u16 == 0u16) ==> (b & 4u16 == 0u16 && b
        & 2u16 == 0u16))) by (bit_vector);
}

} // verus!
