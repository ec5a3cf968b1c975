use noise::collision::Collision;
use noise::entities::{hostile_fighters, is_hostile, player_touches, DialogueLogic, PlayerControl};
use noise::flags::{BBOwnerType, HumanoidInput};
use noise::game::{MetaCommand, ObjMessage};
use noise::input::Key;
use noise::weapons::ArrowLogic;
use noise::world::Fighter;

type Msg = ObjMessage<Collision<u8>, (f64, f64)>;
type Cmd = MetaCommand<(), (), (f64, f64)>;

fn col(kind: BBOwnerType, id: u32) -> Msg {
    ObjMessage::MCollision(Collision { bb: 0, other_bb: 1, other_type: kind, other_id: id })
}

#[test]
fn arrow_spent_by_player_enemy_or_block() {
    let a = ArrowLogic { creator: 7 };
    assert!(a.is_spent_by(BBOwnerType::player(), 1));
    assert!(a.is_spent_by(BBOwnerType::enemy(), 1));
    assert!(!a.is_spent_by(BBOwnerType::enemy(), 7));
    assert!(a.is_spent_by(BBOwnerType::block(), 7));
    assert!(!a.is_spent_by(BBOwnerType::platform(), 1));
}

#[test]
fn arrow_tick_commands() {
    let a = ArrowLogic { creator: 7 };
    let msgs = vec![col(BBOwnerType::enemy(), 7), col(BBOwnerType::block(), 3), ObjMessage::MTrigger];
    let cmds: Vec<Cmd> = a.tick(11, &msgs, (0.0, 13.23));
    assert_eq!(cmds.len(), 2);
    assert!(matches!(cmds[0], MetaCommand::RemoveObject(11)));
    match cmds[1] {
        MetaCommand::ApplyForce(11, f) => assert_eq!(f, (0.0, 13.23)),
        _ => panic!("gravity missing"),
    }
}

#[test]
fn dialogue_spoken_once() {
    let mut d = DialogueLogic { text: String::from("hello"), triggered: false };
    let none: Vec<Cmd> = d.tick(&vec![col(BBOwnerType::player(), 1)] as &Vec<Msg>);
    assert!(none.is_empty());
    assert!(!d.triggered);
    let cmds: Vec<Cmd> = d.tick(&vec![ObjMessage::MTrigger] as &Vec<Msg>);
    assert_eq!(cmds.len(), 1);
    match &cmds[0] {
        MetaCommand::Dialogue(9, t) => assert_eq!(t, "hello"),
        _ => panic!("no dialogue"),
    }
    assert!(d.triggered);
    let again: Vec<Cmd> = d.tick(&vec![ObjMessage::MTrigger] as &Vec<Msg>);
    assert!(again.is_empty());
}

#[test]
fn player_touch_count() {
    let msgs = vec![col(BBOwnerType::player(), 1), col(BBOwnerType::enemy(), 2), col(BBOwnerType::player(), 1)];
    assert_eq!(player_touches(&msgs), 2);
}

#[test]
fn player_control_messages() {
    let mut p: PlayerControl<Collision<u8>, (f64, f64)> = PlayerControl::new();
    p.press(Key::D);
    p.handle_messages(vec![col(BBOwnerType::enemy(), 2), ObjMessage::MPlayerStartGrapple((3.0, 4.0)), ObjMessage::MTrigger]);
    assert!(p.grappling());
    assert_eq!(*p.grapple_target(), Some((3.0, 4.0)));
    assert_eq!(p.movement_input(), HumanoidInput::right().union(HumanoidInput::fall()));
    let cs = p.take_collisions();
    assert_eq!(cs.len(), 1);
    assert_eq!(cs[0].other_id, 2);
    assert!(p.take_collisions().is_empty());
    p.handle_messages(vec![ObjMessage::MPlayerEndGrapple]);
    assert!(!p.grappling());
    assert_eq!(*p.grapple_target(), None);
    p.release(Key::D);
    assert_eq!(p.movement_input(), HumanoidInput::none());
}

#[test]
fn hostile_fighter_filter() {
    let fs = vec![
        Fighter { id: 1, allegiance: Some(0) },
        Fighter { id: 2, allegiance: Some(1) },
        Fighter { id: 3, allegiance: None },
    ];
    assert!(!is_hostile(&fs[0], 0));
    assert!(is_hostile(&fs[2], 0));
    assert_eq!(hostile_fighters(&fs, 0), vec![fs[1], fs[2]]);
    assert_eq!(hostile_fighters(&fs, 1), vec![fs[0], fs[2]]);
}
