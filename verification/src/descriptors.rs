//! Reading descriptors and world files: the errors they report, the weapon
//! names an enemy descriptor may give, and the kinds of object a world file
//! may place.
use vstd::prelude::*;
use crate::flags::Border;
use crate::text::{concat3, concat4, str_eq};
use crate::weapons::Weapon;

verus! {

/// An error met while reading a descriptor or a world file.
pub struct DescriptorError {
    pub message: String,
}

pub open spec fn error_text(dname: Seq<char>, err: Seq<char>) -> Seq<char> {
    "Error while parsing "@ + dname + " json: "@ + err
}

/// The error "Error while parsing `dname` json: `err`".
pub fn error_simple(dname: &str, err: &str) -> (e: DescriptorError)
    ensures
        e.message@ == error_text(dname@, err@),
{
    DescriptorError { message: concat4("Error while parsing ", dname, " json: ", err) }
}

/// The weapon that an enemy descriptor names: "melee" or "bow".
pub fn parse_weapon(weapon_str: &str) -> (r: Result<Weapon, DescriptorError>)
    ensures
        weapon_str@ == "melee"@ ==> r matches Ok(Weapon::Melee),
        weapon_str@ == "bow"@ ==> r matches Ok(Weapon::Bow),
        weapon_str@ != "melee"@ && weapon_str@ != "bow"@ ==> (r matches Err(e) && e.message@
            == error_text("enemy"@, "Unknown weapon "@ + weapon_str@)),
{
    proof {
        reveal_strlit("melee");
        reveal_strlit("bow");
        assert("melee"@.len() == 5);
        assert("bow"@.len() == 3);
    }
    if str_eq(weapon_str, "melee") {
        Ok(Weapon::Melee)
    } else if str_eq(weapon_str, "bow") {
        Ok(Weapon::Bow)
    } else {
        let err = concat3("Unknown weapon ", weapon_str, "");
        assert(err@ == "Unknown weapon "@ + weapon_str@ + ""@);
        assert(""@ == Seq::<char>::empty()) by {
            reveal_strlit("");
        }
        assert(err@ =~= "Unknown weapon "@ + weapon_str@);
        Err(error_simple("enemy", err.as_str()))
    }
}

/// The value of field `field` of a `dname` json object, as the reader found
/// it: `None` when the object has no such field, `Some(None)` when the field
/// is not `expected` (such as "a string"), and `Some(Some(v))` otherwise.
/// A missing field gives the error "has no field '`field`'", a field of the
/// wrong type the error "'`field`' is not `expected`".
pub fn require_field<T>(dname: &str, field: &str, found: Option<Option<T>>, expected: &str) -> (r: Result<T, DescriptorError>)
    ensures
        found matches Some(Some(v)) ==> r == Ok::<T, DescriptorError>(v),
        found is None ==> (r matches Err(e) && e.message@ == error_text(
            dname@,
            "has no field '"@ + field@ + "'"@,
        )),
        found matches Some(None) ==> (r matches Err(e) && e.message@ == error_text(
            dname@,
            "'"@ + field@ + "' is not "@ + expected@,
        )),
{
    match found {
        Some(Some(v)) => Ok(v),
        Some(None) => {
            let err = concat4("'", field, "' is not ", expected);
            Err(error_simple(dname, err.as_str()))
        },
        None => {
            let err = concat3("has no field '", field, "'");
            Err(error_simple(dname, err.as_str()))
        },
    }
}

/// The kinds of object that a world file places, by their "name" field.
#[derive(Clone, Copy, PartialEq, Eq, Structural, Debug)]
pub enum WorldObjectKind {
    Player,
    Enemy,
    Clip,
    Ground,
    PagodaBlock,
    PagodaGround,
    Decor,
    Crown,
    Trigger,
    Dialogue,
    Tinge,
    Unknown,
}

pub open spec fn spec_world_object_kind(name: Seq<char>) -> WorldObjectKind {
    if name == "player"@ {
        WorldObjectKind::Player
    } else if name == "enemy"@ || name == "blue_enemy"@ || name == "red_enemy"@ {
        WorldObjectKind::Enemy
    } else if name == "clip"@ {
        WorldObjectKind::Clip
    } else if name == "ground"@ {
        WorldObjectKind::Ground
    } else if name == "pagoda_block"@ {
        WorldObjectKind::PagodaBlock
    } else if name == "pagoda_ground"@ {
        WorldObjectKind::PagodaGround
    } else if name == "decor"@ {
        WorldObjectKind::Decor
    } else if name == "crown"@ {
        WorldObjectKind::Crown
    } else if name == "trigger"@ {
        WorldObjectKind::Trigger
    } else if name == "dialogue"@ {
        WorldObjectKind::Dialogue
    } else if name == "tinge"@ {
        WorldObjectKind::Tinge
    } else {
        WorldObjectKind::Unknown
    }
}

/// The kind of object that the world file entry named `name` places.
pub fn world_object_kind(name: &str) -> (k: WorldObjectKind)
    ensures
        k == spec_world_object_kind(name@),
{
    if str_eq(name, "player") {
        WorldObjectKind::Player
    } else if str_eq(name, "enemy") || str_eq(name, "blue_enemy") || str_eq(name, "red_enemy") {
        WorldObjectKind::Enemy
    } else if str_eq(name, "clip") {
        WorldObjectKind::Clip
    } else if str_eq(name, "ground") {
        WorldObjectKind::Ground
    } else if str_eq(name, "pagoda_block") {
        WorldObjectKind::PagodaBlock
    } else if str_eq(name, "pagoda_ground") {
        WorldObjectKind::PagodaGround
    } else if str_eq(name, "decor") {
        WorldObjectKind::Decor
    } else if str_eq(name, "crown") {
        WorldObjectKind::Crown
    } else if str_eq(name, "trigger") {
        WorldObjectKind::Trigger
    } else if str_eq(name, "dialogue") {
        WorldObjectKind::Dialogue
    } else if str_eq(name, "tinge") {
        WorldObjectKind::Tinge
    } else {
        WorldObjectKind::Unknown
    }
}

/// The borders of a pagoda platform entry: the left border if
/// "border_left" is true, the right one if "border_right" is.
pub fn borders_from(border_left: bool, border_right: bool) -> (b: Border)
    ensures
        b.bits == (if border_left { 0b0001u8 } else { 0u8 }) | (if border_right { 0b0010u8 } else { 0u8 }),
{
    let mut borders = Border::none();
    if border_left {
        borders = borders.union(Border::left());
    }
    if border_right {
        borders = borders.union(Border::right());
    }
    assert(0u8 | 0u8 == 0u8 && 0u8 | 1u8 == 1u8 && 0u8 | 2u8 == 2u8 && 1u8 | 0u8 == 1u8 && 0u8 | 3u8
        == 3u8 && 1u8 | 2u8 == 3u8) by (bit_vector);
    borders
}

} // verus!
