use noise::descriptors::{borders_from, error_simple, parse_weapon, require_field, world_object_kind, WorldObjectKind};
use noise::flags::Border;
use noise::weapons::Weapon;

#[test]
fn error_simple_message() {
    let e = error_simple("player", "has no field 'speed'");
    assert_eq!(e.message, "Error while parsing player json: has no field 'speed'");
}

#[test]
fn weapons_by_name() {
    assert!(matches!(parse_weapon("melee"), Ok(Weapon::Melee)));
    assert!(matches!(parse_weapon("bow"), Ok(Weapon::Bow)));
    match parse_weapon("sword") {
        Err(e) => assert_eq!(e.message, "Error while parsing enemy json: Unknown weapon sword"),
        Ok(_) => panic!("unknown weapon accepted"),
    }
}

#[test]
fn world_object_kinds() {
    assert_eq!(world_object_kind("player"), WorldObjectKind::Player);
    assert_eq!(world_object_kind("red_enemy"), WorldObjectKind::Enemy);
    assert_eq!(world_object_kind("blue_enemy"), WorldObjectKind::Enemy);
    assert_eq!(world_object_kind("enemy"), WorldObjectKind::Enemy);
    assert_eq!(world_object_kind("clip"), WorldObjectKind::Clip);
    assert_eq!(world_object_kind("ground"), WorldObjectKind::Ground);
    assert_eq!(world_object_kind("pagoda_block"), WorldObjectKind::PagodaBlock);
    assert_eq!(world_object_kind("pagoda_ground"), WorldObjectKind::PagodaGround);
    assert_eq!(world_object_kind("decor"), WorldObjectKind::Decor);
    assert_eq!(world_object_kind("crown"), WorldObjectKind::Crown);
    assert_eq!(world_object_kind("trigger"), WorldObjectKind::Trigger);
    assert_eq!(world_object_kind("dialogue"), WorldObjectKind::Dialogue);
    assert_eq!(world_object_kind("tinge"), WorldObjectKind::Tinge);
    assert_eq!(world_object_kind("Player"), WorldObjectKind::Unknown);
}

#[test]
fn pagoda_borders() {
    assert_eq!(borders_from(false, false), Border::none());
    assert_eq!(borders_from(true, false), Border::left());
    assert_eq!(borders_from(false, true), Border::right());
    assert_eq!(borders_from(true, true), Border::left().union(Border::right()));
}

#[test]
fn field_lookup_errors() {
    let found: Result<u64, _> = require_field("player", "idle_frames", Some(Some(4u64)), "a positive number");
    assert!(matches!(found, Ok(4)));
    match require_field::<String>("world", "name", None, "a string") {
        Err(e) => assert_eq!(e.message, "Error while parsing world json: has no field 'name'"),
        Ok(_) => panic!("missing field accepted"),
    }
    match require_field::<bool>("pagoda_block", "border_left", Some(None), "a boolean") {
        Err(e) => assert_eq!(e.message, "Error while parsing pagoda_block json: 'border_left' is not a boolean"),
        Ok(_) => panic!("wrong type accepted"),
    }
}
