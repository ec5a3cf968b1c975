//! Who collides with whom.
//!
//! A bounding box is described by its properties (the owning object's id and
//! the kinds it belongs to) and by its geometry, a value of the type
//! parameter `B` that this module never looks into. Whether two boxes
//! overlap, and whether a box stands low enough to pass a platform, are
//! geometric questions; the caller answers them through the closures it
//! hands to [`does_collide`].
use vstd::prelude::*;
use crate::flags::BBOwnerType;

verus! {

pub type Id = u32;

#[derive(Clone, Copy, PartialEq, Eq, Structural, Debug)]
pub struct BBProperties {
    pub id: Id,
    pub owner_type: BBOwnerType,
}

impl BBProperties {
    pub fn new(id: Id, owner_type: BBOwnerType) -> (r: Self)
        ensures
            r.id == id,
            r.owner_type == owner_type,
    {
        BBProperties { id: id, owner_type: owner_type }
    }
}

/// A bounding box together with the properties of its owner.
pub type BBDescriptor<B> = (BBProperties, B);

/// A collision as seen from one side: our box, the other box, and who the
/// other box belongs to.
#[derive(Clone, Copy, PartialEq, Eq, Debug)]
pub struct Collision<B> {
    pub bb: B,
    pub other_bb: B,
    pub other_type: BBOwnerType,
    pub other_id: Id,
}

impl<B: Copy> Collision<B> {
    pub open spec fn spec_flip_new(self, id: Id, our_type: BBOwnerType) -> Collision<B> {
        Collision { bb: self.other_bb, other_bb: self.bb, other_type: our_type, other_id: id }
    }

    /// The same collision as seen from the other side, where we are the
    /// object `id` of kind `our_type`.
    pub fn flip_new(&self, id: Id, our_type: BBOwnerType) -> (r: Self)
        ensures
            r == self.spec_flip_new(id, our_type),
    {
        Collision { bb: self.other_bb, other_bb: self.bb, other_type: our_type, other_id: id }
    }
}

/// Flipping a collision and flipping it back, naming the first other
/// side, gives the collision back.
pub proof fn lemma_flip_involutive<B: Copy>(c: Collision<B>, id: Id, our_type: BBOwnerType)
    ensures
        c.spec_flip_new(id, our_type).spec_flip_new(c.other_id, c.other_type) == c,
{
}

/// What a collision test is run with: who we are, the boxes of the world,
/// the kinds we collide with, and whether we fall through platforms.
pub struct ColArgs<'a, B> {
    pub p: &'a BBProperties,
    pub bbs: &'a [BBDescriptor<B>],
    pub to_collide: BBOwnerType,
    pub pass_platforms: bool,
}

pub open spec fn platform_kind() -> BBOwnerType {
    BBOwnerType { bits: 0b00000001 }
}

/// The descriptor `d` is left out of the test, judging by ids and kinds
/// alone: it is our own box, or of a kind we do not collide with.
pub open spec fn ignored(p: BBProperties, to_collide: BBOwnerType, d: BBProperties) -> bool {
    d.id == p.id || !to_collide.spec_contains(d.owner_type)
}

/// The descriptor is left out of the test because it is a platform that we
/// pass: we fall through platforms, or `below` answered that our box stands
/// at or below the platform's bottom.
pub open spec fn passed_platform<B, G: Fn(&B, &B) -> bool>(
    pass_platforms: bool,
    bb: B,
    d: BBDescriptor<B>,
    below: G,
) -> bool {
    d.0.owner_type.spec_contains(platform_kind()) && (pass_platforms || below.ensures(
        (&bb, &d.1),
        true,
    ))
}

/// The descriptor is tested for overlap: not ignored, and not a platform
/// that we pass (`below` answered no, and we do not fall through).
pub open spec fn tested<B, G: Fn(&B, &B) -> bool>(
    p: BBProperties,
    to_collide: BBOwnerType,
    pass_platforms: bool,
    bb: B,
    d: BBDescriptor<B>,
    below: G,
) -> bool {
    &&& !ignored(p, to_collide, d.0)
    &&& (!d.0.owner_type.spec_contains(platform_kind()) || (!pass_platforms && below.ensures(
        (&bb, &d.1),
        false,
    )))
}

/// The descriptor did not give a collision: it was left out, or `overlaps`
/// answered no.
pub open spec fn no_hit<B, F: Fn(&B, &B) -> bool, G: Fn(&B, &B) -> bool>(
    p: BBProperties,
    to_collide: BBOwnerType,
    pass_platforms: bool,
    bb: B,
    d: BBDescriptor<B>,
    overlaps: F,
    below: G,
) -> bool {
    ||| ignored(p, to_collide, d.0)
    ||| passed_platform(pass_platforms, bb, d, below)
    ||| overlaps.ensures((&bb, &d.1), false)
}

/// The first box of `args.bbs` that our box `bb` runs into.
///
/// A box is skipped when it is ours, when its kinds are not all among
/// `args.to_collide`, or when it is a platform and we either fall through
/// platforms or `below(bb, other)` says that our box already reaches the
/// platform's bottom. Of the others, the first for which
/// `overlaps(bb, other)` holds gives the collision.
pub fn does_collide<B: Copy, F: Fn(&B, &B) -> bool, G: Fn(&B, &B) -> bool>(
    args: &ColArgs<B>,
    bb: &B,
    overlaps: F,
    below: G,
) -> (r: Option<Collision<B>>)
    requires
        forall|a: &B, b: &B| #[trigger] overlaps.requires((a, b)),
        forall|a: &B, b: &B| #[trigger] below.requires((a, b)),
    ensures
        match r {
            Some(c) => exists|i: int|
                #![trigger args.bbs@[i]]
                0 <= i < args.bbs@.len() && tested(
                    *args.p,
                    args.to_collide,
                    args.pass_platforms,
                    *bb,
                    args.bbs@[i],
                    below,
                ) && overlaps.ensures((bb, &args.bbs@[i].1), true) && c == Collision {
                    bb: *bb,
                    other_bb: args.bbs@[i].1,
                    other_type: args.bbs@[i].0.owner_type,
                    other_id: args.bbs@[i].0.id,
                } && forall|j: int|
                    0 <= j < i ==> no_hit(
                        *args.p,
                        args.to_collide,
                        args.pass_platforms,
                        *bb,
                        #[trigger] args.bbs@[j],
                        overlaps,
                        below,
                    ),
            None => forall|j: int|
                0 <= j < args.bbs@.len() ==> no_hit(
                    *args.p,
                    args.to_collide,
                    args.pass_platforms,
                    *bb,
                    #[trigger] args.bbs@[j],
                    overlaps,
                    below,
                ),
        },
{
    let n = args.bbs.len();
    let mut i: usize = 0;
    while i < n
        invariant
            n == args.bbs@.len(),
            i <= n,
            forall|a: &B, b: &B| #[trigger] overlaps.requires((a, b)),
            forall|a: &B, b: &B| #[trigger] below.requires((a, b)),
            forall|j: int|
                0 <= j < i ==> no_hit(
                    *args.p,
                    args.to_collide,
                    args.pass_platforms,
                    *bb,
                    #[trigger] args.bbs@[j],
                    overlaps,
                    below,
                ),
        decreases n - i,
    {
        let other_p = args.bbs[i].0;
        let other_bb = &args.bbs[i].1;
        if other_p.id == args.p.id || !args.to_collide.contains(other_p.owner_type) {
            i = i + 1;
            continue;
        }
        if other_p.owner_type.contains(BBOwnerType::platform()) {
            let under = below(bb, other_bb);
            if under || args.pass_platforms {
                i = i + 1;
                continue;
            }
        }
        if overlaps(bb, other_bb) {
            let c = Collision {
                other_type: other_p.owner_type,
                bb: *bb,
                other_bb: *other_bb,
                other_id: other_p.id,
            };
            assert(args.bbs@[i as int].1 == *other_bb);
            return Some(c);
        }
        i = i + 1;
    }
    None
}

/// Whether our box runs into any box of the world, by the rules of
/// [`does_collide`].
pub fn does_collide_bool<B: Copy, F: Fn(&B, &B) -> bool, G: Fn(&B, &B) -> bool>(
    args: &ColArgs<B>,
    bb: &B,
    overlaps: F,
    below: G,
) -> (r: bool)
    requires
        forall|a: &B, b: &B| #[trigger] overlaps.requires((a, b)),
        forall|a: &B, b: &B| #[trigger] below.requires((a, b)),
    ensures
        r ==> exists|i: int|
            #![trigger args.bbs@[i]]
            0 <= i < args.bbs@.len() && tested(
                *args.p,
                args.to_collide,
                args.pass_platforms,
                *bb,
                args.bbs@[i],
                below,
            ) && overlaps.ensures((bb, &args.bbs@[i].1), true),
        !r ==> forall|j: int|
            0 <= j < args.bbs@.len() ==> no_hit(
                *args.p,
                args.to_collide,
                args.pass_platforms,
                *bb,
                #[trigger] args.bbs@[j],
                overlaps,
                below,
            ),
{
    does_collide(args, bb, overlaps, below).is_some()
}

/// What a collision can never be with, for every test: a box tested for
/// overlap, and so any box that `does_collide` reports, is never our own
/// box, always of kinds all among those we collide with, and never a
/// platform while we fall through platforms.
pub proof fn lemma_tested_boxes<B, G: Fn(&B, &B) -> bool>(
    p: BBProperties,
    to_collide: BBOwnerType,
    pass_platforms: bool,
    bb: B,
    d: BBDescriptor<B>,
    below: G,
)
    ensures
        tested(p, to_collide, pass_platforms, bb, d, below) ==> {
            &&& d.0.id != p.id
            &&& to_collide.bits & d.0.owner_type.bits == d.0.owner_type.bits
            &&& !(pass_platforms && d.0.owner_type.bits & 0b00000001 != 0)
        },
        d.0.id == p.id ==> !tested(p, to_collide, pass_platforms, bb, d, below),
        !to_collide.spec_contains(d.0.owner_type) ==> !tested(p, to_collide, pass_platforms, bb, d, below),
{
    let t = d.0.owner_type.bits;
    assert((t & 1u16 == 1u16) == (t & 1u16 != 0u16)) by (bit_vector);
}

} // verus!
