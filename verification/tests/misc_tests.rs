use noise::bb::BBHandler;
use noise::collision::BBProperties;
use noise::dynamic::{default_draw, default_tick};
use noise::flags::BBOwnerType;
use noise::tools::arc_mut;

#[test]
fn arc_mut_shares_the_value() {
    let a = arc_mut(5u32);
    let b = a.clone();
    *b.lock().unwrap() += 1;
    assert_eq!(*a.lock().unwrap(), 6);
}

#[test]
fn default_script_handlers_succeed() {
    assert!(default_tick().is_ok());
    assert!(default_draw().is_ok());
}

#[test]
fn bb_handler_registry() {
    let mut h: BBHandler<u8> = BBHandler::new();
    assert_eq!(h.generate_id(), 0);
    assert_eq!(h.generate_id(), 1);
    let p = BBProperties::new(4, BBOwnerType::block());
    let q = BBProperties::new(2, BBOwnerType::platform());
    h.send(p, Some(1));
    h.send(q, Some(2));
    assert!(h.get(4).is_none());
    h.update();
    assert_eq!(h.get(4), Some((p, 1)));
    assert_eq!(h.to_vec(), vec![(q, 2), (p, 1)]);
    h.send(p, None);
    h.update();
    assert_eq!(h.to_vec(), vec![(q, 2)]);
}
