//! Flag sets: which kinds of objects a bounding box belongs to, which edges of
//! a pagoda platform carry a border, and which movement or grapple inputs are
//! currently held.
//!
//! Each set is a word of bits. A set `a` contains a set `b` when every bit of
//! `b` is set in `a`.
use vstd::prelude::*;

verus! {

/// `a` contains `b` when all bits of `b` are set in `a`.
pub open spec fn bits16_contains(a: u16, b: u16) -> bool {
    a & b == b
}

pub open spec fn bits8_contains(a: u8, b: u8) -> bool {
    a & b == b
}

/// Containment of 16-bit flag sets is reflexive, transitive and
/// antisymmetric; every set contains the empty one; a union contains both
/// parts and is commutative; removing a set's bits leaves none of them.
pub proof fn lemma_bits16_laws(a: u16, b: u16, c: u16)
    ensures
        bits16_contains(a, a),
        bits16_contains(a, 0),
        bits16_contains(a | b, a),
        bits16_contains(a | b, b),
        bits16_contains(a, b) && bits16_contains(b, c) ==> bits16_contains(a, c),
        bits16_contains(a, b) ==> a | b == a,
        bits16_contains(a, b) && bits16_contains(b, a) ==> a == b,
        a | b == b | a,
        (a & !b) & b == 0,
        bits16_contains(a, a & !b),
        bits16_contains(a, b) <==> (a & b) == b,
{
    assert(bits16_contains(a, a)) by (bit_vector);
    assert(bits16_contains(a, 0)) by (bit_vector);
    assert(bits16_contains(a | b, a) && bits16_contains(a | b, b)) by (bit_vector);
    assert(bits16_contains(a, b) && bits16_contains(b, c) ==> bits16_contains(a, c)) by (bit_vector);
    assert(bits16_contains(a, b) ==> a | b == a) by (bit_vector);
    assert(bits16_contains(a, b) && bits16_contains(b, a) ==> a == b) by (bit_vector);
    assert(a | b == b | a) by (bit_vector);
    assert((a & !b) & b == 0 && bits16_contains(a, a & !b)) by (bit_vector);
}

/// The same laws for 8-bit flag sets, such as the borders of a platform.
pub proof fn lemma_bits8_laws(a: u8, b: u8, c: u8)
    ensures
        bits8_contains(a, a),
        bits8_contains(a, 0),
        bits8_contains(a | b, a),
        bits8_contains(a | b, b),
        bits8_contains(a, b) && bits8_contains(b, c) ==> bits8_contains(a, c),
        bits8_contains(a, b) ==> a | b == a,
        a | b == b | a,
        (a & !b) & b == 0,
{
    assert(bits8_contains(a, a)) by (bit_vector);
    assert(bits8_contains(a, 0)) by (bit_vector);
    assert(bits8_contains(a | b, a) && bits8_contains(a | b, b)) by (bit_vector);
    assert(bits8_contains(a, b) && bits8_contains(b, c) ==> bits8_contains(a, c)) by (bit_vector);
    assert(bits8_contains(a, b) ==> a | b == a) by (bit_vector);
    assert(a | b == b | a) by (bit_vector);
    assert((a & !b) & b == 0) by (bit_vector);
}

/// The kinds of object that a bounding box belongs to.
#[derive(Clone, Copy, PartialEq, Eq, Structural, Debug)]
pub struct BBOwnerType {
    pub bits: u16,
}

impl BBOwnerType {
    pub open spec fn spec_contains(self, other: BBOwnerType) -> bool {
        bits16_contains(self.bits, other.bits)
    }

    pub fn from_bits(bits: u16) -> (r: Self)
        ensures
            r.bits == bits,
    {
        BBOwnerType { bits }
    }

    /// No kind at all.
    pub fn none() -> (r: Self)
        ensures
            r.bits == 0,
    {
        BBOwnerType { bits: 0b00000000 }
    }

    /// Belongs to a platform.
    pub fn platform() -> (r: Self)
        ensures
            r.bits == 0b00000001,
    {
        BBOwnerType { bits: 0b00000001 }
    }

    /// Belongs to a block.
    pub fn block() -> (r: Self)
        ensures
            r.bits == 0b00000010,
    {
        BBOwnerType { bits: 0b00000010 }
    }

    /// Belongs to the player.
    pub fn player() -> (r: Self)
        ensures
            r.bits == 0b00000100,
    {
        BBOwnerType { bits: 0b00000100 }
    }

    /// Belongs to an enemy.
    pub fn enemy() -> (r: Self)
        ensures
            r.bits == 0b00001000,
    {
        BBOwnerType { bits: 0b00001000 }
    }

    /// The object causes damage.
    pub fn damage() -> (r: Self)
        ensures
            r.bits == 0b00010000,
    {
        BBOwnerType { bits: 0b00010000 }
    }

    /// The object should be considered by the player.
    pub fn player_entity() -> (r: Self)
        ensures
            r.bits == 0b00100000,
    {
        BBOwnerType { bits: 0b00100000 }
    }

    /// The object is never checked against for collisions.
    pub fn nocollide() -> (r: Self)
        ensures
            r.bits == 0b01000000,
    {
        BBOwnerType { bits: 0b01000000 }
    }

    /// Every kind.
    pub fn all() -> (r: Self)
        ensures
            r.bits == 0b11111111,
    {
        BBOwnerType { bits: 0b11111111 }
    }

    pub fn contains(&self, other: BBOwnerType) -> (r: bool)
        ensures
            r == self.spec_contains(other),
    {
        self.bits & other.bits == other.bits
    }

    pub fn intersects(&self, other: BBOwnerType) -> (r: bool)
        ensures
            r == (self.bits & other.bits != 0),
    {
        self.bits & other.bits != 0
    }

    pub fn is_empty(&self) -> (r: bool)
        ensures
            r == (self.bits == 0),
    {
        self.bits == 0
    }

    pub fn union(&self, other: BBOwnerType) -> (r: BBOwnerType)
        ensures
            r.bits == self.bits | other.bits,
    {
        BBOwnerType { bits: self.bits | other.bits }
    }

    pub fn intersection(&self, other: BBOwnerType) -> (r: BBOwnerType)
        ensures
            r.bits == self.bits & other.bits,
    {
        BBOwnerType { bits: self.bits & other.bits }
    }

    pub fn difference(&self, other: BBOwnerType) -> (r: BBOwnerType)
        ensures
            r.bits == self.bits & !other.bits,
    {
        BBOwnerType { bits: self.bits & !other.bits }
    }
}

/// Union of two owner kinds contains both of them, and the containment
/// order on owner kinds is reflexive, transitive and antisymmetric.
pub proof fn lemma_owner_type_laws(a: BBOwnerType, b: BBOwnerType, c: BBOwnerType)
    ensures
        a.spec_contains(a),
        a.spec_contains(BBOwnerType { bits: 0 }),
        (BBOwnerType { bits: a.bits | b.bits }).spec_contains(a),
        (BBOwnerType { bits: a.bits | b.bits }).spec_contains(b),
        a.spec_contains(b) && b.spec_contains(c) ==> a.spec_contains(c),
        a.spec_contains(b) && b.spec_contains(a) ==> a == b,
        a.spec_contains(b) ==> (BBOwnerType { bits: a.bits | b.bits }) == a,
{
    lemma_bits16_laws(a.bits, b.bits, c.bits);
}

/// Borders of a pagoda platform that carry an edge tile.
#[derive(Clone, Copy, PartialEq, Eq, Structural, Debug)]
pub struct Border {
    pub bits: u8,
}

impl Border {
    pub open spec fn spec_contains(self, other: Border) -> bool {
        bits8_contains(self.bits, other.bits)
    }

    pub fn none() -> (r: Self)
        ensures
            r.bits == 0,
    {
        Border { bits: 0b0000 }
    }

    pub fn left() -> (r: Self)
        ensures
            r.bits == 0b0001,
    {
        Border { bits: 0b0001 }
    }

    pub fn right() -> (r: Self)
        ensures
            r.bits == 0b0010,
    {
        Border { bits: 0b0010 }
    }

    pub fn up() -> (r: Self)
        ensures
            r.bits == 0b0100,
    {
        Border { bits: 0b0100 }
    }

    pub fn down() -> (r: Self)
        ensures
            r.bits == 0b1000,
    {
        Border { bits: 0b1000 }
    }

    pub fn all() -> (r: Self)
        ensures
            r.bits == 0b1111,
    {
        Border { bits: 0b1111 }
    }

    pub fn contains(&self, other: Border) -> (r: bool)
        ensures
            r == self.spec_contains(other),
    {
        self.bits & other.bits == other.bits
    }

    pub fn union(&self, other: Border) -> (r: Border)
        ensures
            r.bits == self.bits | other.bits,
    {
        Border { bits: self.bits | other.bits }
    }
}

/// The movement inputs that a humanoid (the player or an enemy) holds.
#[derive(Clone, Copy, PartialEq, Eq, Structural, Debug)]
pub struct HumanoidInput {
    pub bits: u16,
}

impl HumanoidInput {
    pub open spec fn spec_contains(self, other: HumanoidInput) -> bool {
        bits16_contains(self.bits, other.bits)
    }

    pub fn none() -> (r: Self)
        ensures
            r.bits == 0,
    {
        HumanoidInput { bits: 0b00000000 }
    }

    pub fn left() -> (r: Self)
        ensures
            r.bits == 0b00000001,
    {
        HumanoidInput { bits: 0b00000001 }
    }

    pub fn right() -> (r: Self)
        ensures
            r.bits == 0b00000010,
    {
        HumanoidInput { bits: 0b00000010 }
    }

    pub fn fall() -> (r: Self)
        ensures
            r.bits == 0b00000100,
    {
        HumanoidInput { bits: 0b00000100 }
    }

    pub fn jump() -> (r: Self)
        ensures
            r.bits == 0b00001000,
    {
        HumanoidInput { bits: 0b00001000 }
    }

    pub fn dash() -> (r: Self)
        ensures
            r.bits == 0b00010000,
    {
        HumanoidInput { bits: 0b00010000 }
    }

    pub fn contains(&self, other: HumanoidInput) -> (r: bool)
        ensures
            r == self.spec_contains(other),
    {
        self.bits & other.bits == other.bits
    }

    pub fn is_empty(&self) -> (r: bool)
        ensures
            r == (self.bits == 0),
    {
        self.bits == 0
    }

    pub fn union(&self, other: HumanoidInput) -> (r: HumanoidInput)
        ensures
            r.bits == self.bits | other.bits,
    {
        HumanoidInput { bits: self.bits | other.bits }
    }

    pub fn difference(&self, other: HumanoidInput) -> (r: HumanoidInput)
        ensures
            r.bits == self.bits & !other.bits,
    {
        HumanoidInput { bits: self.bits & !other.bits }
    }
}

/// The directions and the retract button that the grapple holster holds.
#[derive(Clone, Copy, PartialEq, Eq, Structural, Debug)]
pub struct GrappleInput {
    pub bits: u16,
}

impl GrappleInput {
    pub open spec fn spec_contains(self, other: GrappleInput) -> bool {
        bits16_contains(self.bits, other.bits)
    }

    pub fn none() -> (r: Self)
        ensures
            r.bits == 0,
    {
        GrappleInput { bits: 0b00000000 }
    }

    pub fn left() -> (r: Self)
        ensures
            r.bits == 0b00000001,
    {
        GrappleInput { bits: 0b00000001 }
    }

    pub fn right() -> (r: Self)
        ensures
            r.bits == 0b00000010,
    {
        GrappleInput { bits: 0b00000010 }
    }

    pub fn down() -> (r: Self)
        ensures
            r.bits == 0b00000100,
    {
        GrappleInput { bits: 0b00000100 }
    }

    pub fn up() -> (r: Self)
        ensures
            r.bits == 0b00001000,
    {
        GrappleInput { bits: 0b00001000 }
    }

    pub fn retract() -> (r: Self)
        ensures
            r.bits == 0b00010000,
    {
        GrappleInput { bits: 0b00010000 }
    }

    pub fn contains(&self, other: GrappleInput) -> (r: bool)
        ensures
            r == self.spec_contains(other),
    {
        self.bits & other.bits == other.bits
    }

    pub fn is_empty(&self) -> (r: bool)
        ensures
            r == (self.bits == 0),
    {
        self.bits == 0
    }

    pub fn union(&self, other: GrappleInput) -> (r: GrappleInput)
        ensures
            r.bits == self.bits | other.bits,
    {
        GrappleInput { bits: self.bits | other.bits }
    }

    pub fn difference(&self, other: GrappleInput) -> (r: GrappleInput)
        ensures
            r.bits == self.bits & !other.bits,
    {
        GrappleInput { bits: self.bits & !other.bits }
    }
}

} // verus!
