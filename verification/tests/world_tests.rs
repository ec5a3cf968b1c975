use noise::collision::BBProperties;
use noise::flags::BBOwnerType;
use noise::world::{Fighter, World};

#[test]
fn read_after_send_and_update() {
    let mut w: World<(f64, f64), ()> = World::new(());
    let p = BBProperties::new(5, BBOwnerType::block());
    w.send(p, Some((1.0, 2.0)));
    assert!(w.get(5).is_none());
    w.update();
    assert_eq!(w.get(5), Some((p, (1.0, 2.0))));
    w.send(p, Some((3.0, 4.0)));
    w.update();
    assert_eq!(w.get(5), Some((p, (3.0, 4.0))));
    w.send(p, None);
    w.update();
    assert!(w.get(5).is_none());
}

#[test]
fn updates_apply_in_order_and_others_untouched() {
    let mut w: World<u8, ()> = World::new(());
    let a = BBProperties::new(1, BBOwnerType::player());
    let b = BBProperties::new(2, BBOwnerType::block());
    w.send(a, Some(1));
    w.send(b, Some(2));
    w.send(a, None);
    w.send(a, Some(9));
    w.update();
    assert_eq!(w.get(1), Some((a, 9)));
    assert_eq!(w.get(2), Some((b, 2)));
}

#[test]
fn buffer_leaves_out_nocollide_boxes() {
    let mut w: World<u8, ()> = World::new(());
    let arrow = BBProperties::new(3, BBOwnerType::damage().union(BBOwnerType::nocollide()));
    let block = BBProperties::new(1, BBOwnerType::block());
    let plat = BBProperties::new(2, BBOwnerType::platform());
    w.send(arrow, Some(30));
    w.send(plat, Some(20));
    w.send(block, Some(10));
    w.update();
    assert_eq!(w.buffer(), &vec![(block, 10), (plat, 20)]);
    assert_eq!(w.get(3), Some((arrow, 30)));
}

#[test]
fn generate_id_counts_up_from_one() {
    let mut w: World<u8, ()> = World::new(());
    assert_eq!(w.player_id(), 0);
    assert_eq!(w.generate_id(), 2);
    assert_eq!(w.generate_id(), 3);
    w.reset(10);
    assert_eq!(w.generate_id(), 11);
}

#[test]
fn reset_drops_boxes_and_pending_updates() {
    let mut w: World<u8, ()> = World::new(());
    w.send(BBProperties::new(1, BBOwnerType::block()), Some(1));
    w.update();
    w.send(BBProperties::new(2, BBOwnerType::block()), Some(2));
    w.reset(1);
    w.update();
    assert!(w.get(1).is_none());
    assert!(w.get(2).is_none());
    assert!(w.buffer().is_empty());
}

#[test]
fn fighters_register_and_leave() {
    let mut w: World<u8, ()> = World::new(());
    w.add_fighter(4, 1);
    w.add_fighter(2, 0);
    assert!(w.fighter_buffer().is_empty());
    w.update();
    assert_eq!(
        w.fighter_buffer(),
        &vec![Fighter { id: 2, allegiance: Some(0) }, Fighter { id: 4, allegiance: Some(1) }]
    );
    w.remove_fighter(2);
    w.update();
    assert_eq!(w.fighter_buffer(), &vec![Fighter { id: 4, allegiance: Some(1) }]);
}

#[test]
fn trigger_map_lookup() {
    let mut w: World<u8, &str> = World::new("descr");
    assert_eq!(*w.descr(), "descr");
    assert_eq!(w.get_from_trigger_id(7), None);
    w.add_to_trigger_id_map(7, 42);
    assert_eq!(w.get_from_trigger_id(7), Some(42));
    w.add_to_trigger_id_map(7, 43);
    assert_eq!(w.get_from_trigger_id(7), Some(43));
}

#[test]
fn ids_from_a_new_world_count_up_from_two() {
    let mut w: World<u8, ()> = World::new(());
    assert_eq!(w.generate_id(), 2);
    assert_eq!(w.generate_id(), 3);
    assert_eq!(w.generate_id(), 4);
    assert_eq!(w.player_id(), 0);
}
