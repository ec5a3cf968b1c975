use noise::flags::{BBOwnerType, Border, GrappleInput, HumanoidInput};

#[test]
fn owner_union_contains_both() {
    let a = BBOwnerType::player();
    let b = BBOwnerType::damage();
    let u = a.union(b);
    assert!(u.contains(a));
    assert!(u.contains(b));
    assert!(!a.contains(u));
    assert_eq!(u.bits, 0b00010100);
}

#[test]
fn owner_all_contains_every_kind() {
    let all = BBOwnerType::all();
    for k in [
        BBOwnerType::none(),
        BBOwnerType::platform(),
        BBOwnerType::block(),
        BBOwnerType::player(),
        BBOwnerType::enemy(),
        BBOwnerType::damage(),
        BBOwnerType::player_entity(),
        BBOwnerType::nocollide(),
    ] {
        assert!(all.contains(k));
    }
    assert!(BBOwnerType::none().is_empty());
    assert!(BBOwnerType::block().contains(BBOwnerType::none()));
}

#[test]
fn owner_difference_and_intersection() {
    let u = BBOwnerType::block().union(BBOwnerType::platform());
    let d = u.difference(BBOwnerType::block());
    assert_eq!(d, BBOwnerType::platform());
    assert!(!d.intersects(BBOwnerType::block()));
    assert_eq!(u.intersection(BBOwnerType::block()), BBOwnerType::block());
    assert_eq!(BBOwnerType::from_bits(3), u);
}

#[test]
fn border_flags() {
    let b = Border::left().union(Border::right());
    assert!(b.contains(Border::left()));
    assert!(b.contains(Border::right()));
    assert!(!b.contains(Border::up()));
    assert!(Border::all().contains(Border::down()));
    assert_eq!(Border::none().bits, 0);
}

#[test]
fn humanoid_and_grapple_flags() {
    let h = HumanoidInput::left().union(HumanoidInput::jump());
    assert!(h.contains(HumanoidInput::jump()));
    assert!(!h.difference(HumanoidInput::jump()).contains(HumanoidInput::jump()));
    assert!(HumanoidInput::none().is_empty());
    let g = GrappleInput::up().union(GrappleInput::retract());
    assert!(g.contains(GrappleInput::retract()));
    assert!(g.difference(g).is_empty());
    assert_eq!(HumanoidInput::dash().bits, 0b10000);
    assert_eq!(GrappleInput::down().bits, 0b100);
}
