use noise::collision::{does_collide, does_collide_bool, BBProperties, ColArgs, Collision};
use noise::flags::BBOwnerType;

/// A box: x, y, w, h.
type Bx = (f64, f64, f64, f64);

fn overlaps(a: &Bx, b: &Bx) -> bool {
    !(a.0 + a.2 <= b.0 || a.0 >= b.0 + b.2 || a.1 + a.3 <= b.1 || a.1 >= b.1 + b.3)
}

fn below(a: &Bx, b: &Bx) -> bool {
    a.1 + a.3 >= b.1 + b.3
}

#[test]
fn collision_flip_new() {
    let c = Collision { bb: 1u8, other_bb: 2u8, other_type: BBOwnerType::enemy(), other_id: 7 };
    let f = c.flip_new(3, BBOwnerType::player());
    assert_eq!(f.bb, 2);
    assert_eq!(f.other_bb, 1);
    assert_eq!(f.other_id, 3);
    assert_eq!(f.other_type, BBOwnerType::player());
    let back = f.flip_new(7, BBOwnerType::enemy());
    assert_eq!(back, c);
}

#[test]
fn collides_with_first_overlapping_block() {
    let me = BBProperties::new(1, BBOwnerType::player());
    let bbs = vec![
        (BBProperties::new(1, BBOwnerType::player()), (0.0, 0.0, 10.0, 10.0)),
        (BBProperties::new(2, BBOwnerType::block()), (100.0, 0.0, 10.0, 10.0)),
        (BBProperties::new(3, BBOwnerType::block()), (5.0, 5.0, 10.0, 10.0)),
        (BBProperties::new(4, BBOwnerType::block()), (6.0, 6.0, 10.0, 10.0)),
    ];
    let args = ColArgs { p: &me, bbs: &bbs, to_collide: BBOwnerType::all(), pass_platforms: false };
    let test: Bx = (0.0, 0.0, 10.0, 10.0);
    let c = does_collide(&args, &test, overlaps, below).unwrap();
    assert_eq!(c.other_id, 3);
    assert_eq!(c.other_type, BBOwnerType::block());
    assert_eq!(c.other_bb, (5.0, 5.0, 10.0, 10.0));
    assert!(does_collide_bool(&args, &test, overlaps, below));
}

#[test]
fn ignores_kinds_not_collided_with() {
    let me = BBProperties::new(1, BBOwnerType::player());
    let bbs = vec![(BBProperties::new(2, BBOwnerType::enemy()), (0.0, 0.0, 10.0, 10.0))];
    let args = ColArgs { p: &me, bbs: &bbs, to_collide: BBOwnerType::block(), pass_platforms: false };
    assert!(does_collide(&args, &(0.0, 0.0, 10.0, 10.0), overlaps, below).is_none());
}

#[test]
fn platforms_pass_from_below_or_when_falling_through() {
    let me = BBProperties::new(1, BBOwnerType::player());
    let plat = (BBProperties::new(2, BBOwnerType::platform()), (0.0, 10.0, 50.0, 10.0));
    let bbs = vec![plat];
    let standing: Bx = (0.0, 5.0, 10.0, 10.0);
    let args = ColArgs { p: &me, bbs: &bbs, to_collide: BBOwnerType::all(), pass_platforms: false };
    assert!(does_collide_bool(&args, &standing, overlaps, below));
    let through = ColArgs { p: &me, bbs: &bbs, to_collide: BBOwnerType::all(), pass_platforms: true };
    assert!(!does_collide_bool(&through, &standing, overlaps, below));
    let from_below: Bx = (0.0, 12.0, 10.0, 10.0);
    assert!(!does_collide_bool(&args, &from_below, overlaps, below));
}
