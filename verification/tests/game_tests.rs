use noise::game::{route_command, CommandAction, CommandBuffer, MetaCommand, ObjMessage, ObjectTable};
use noise::world::World;

type Cmd = MetaCommand<&'static str, ObjMessage<u8, (f64, f64)>, (f64, f64)>;

#[test]
fn command_buffer_is_first_in_first_out() {
    let mut b: CommandBuffer<u32> = CommandBuffer::new();
    b.issue(1);
    b.issue(2);
    b.issue(3);
    assert_eq!(b.read_buffer(), vec![1, 2, 3]);
    assert!(b.read_buffer().is_empty());
    b.issue(4);
    assert_eq!(b.read_buffer(), vec![4]);
}

#[test]
fn mess_obj_queues_a_message_command() {
    let mut b: CommandBuffer<Cmd> = CommandBuffer::new();
    b.mess_obj(9, ObjMessage::MTrigger);
    let v = b.read_buffer();
    assert_eq!(v.len(), 1);
    assert!(matches!(v[0], MetaCommand::MessageObject(9, ObjMessage::MTrigger)));
}

#[test]
fn object_table_keeps_ids_sorted() {
    let mut t: ObjectTable<&str> = ObjectTable::new();
    t.extend(vec![(5, "e"), (1, "a"), (3, "c")]);
    t.insert(2, "b");
    let ids: Vec<u32> = (0..t.len()).map(|i| t.get(i).0).collect();
    assert_eq!(ids, vec![1, 2, 3, 5]);
    assert_eq!(t.find(3).map(|i| t.get(i).1), Some("c"));
    assert_eq!(t.find(4), None);
}

#[test]
fn object_table_equal_ids_keep_arrival_order() {
    let mut t: ObjectTable<&str> = ObjectTable::new();
    t.extend(vec![(2, "first"), (1, "x"), (2, "second")]);
    assert_eq!(t.get(1).1, "first");
    assert_eq!(t.get(2).1, "second");
}

#[test]
fn object_table_remove_ids() {
    let mut t: ObjectTable<&str> = ObjectTable::new();
    t.extend(vec![(1, "a"), (2, "b"), (3, "c")]);
    let removed = t.remove_ids(&vec![2, 7, 3]);
    assert_eq!(removed, vec![(2, "b"), (3, "c")]);
    assert_eq!(t.len(), 1);
    assert_eq!(t.remove(1), Some("a"));
    assert_eq!(t.remove(1), None);
}

#[test]
fn route_commands() {
    let mut t: ObjectTable<&str> = ObjectTable::new();
    t.extend(vec![(10, "a"), (20, "b")]);
    let mut w: World<u8, ()> = World::new(());
    w.add_to_trigger_id_map(1, 20);
    w.add_to_trigger_id_map(2, 99);

    assert!(matches!(route_command(Cmd::RestartGame, &t, &mut w), CommandAction::Restart));
    assert!(matches!(route_command(Cmd::RemoveObject(10), &t, &mut w), CommandAction::QueueRemoval(10)));
    assert!(matches!(route_command(Cmd::CreateObject("new"), &t, &mut w), CommandAction::QueueCreation("new")));
    match route_command(Cmd::MessageObject(20, ObjMessage::MTrigger), &t, &mut w) {
        CommandAction::Deliver(i, ObjMessage::MTrigger) => assert_eq!(t.get(i).0, 20),
        _ => panic!("message not delivered"),
    }
    assert!(matches!(route_command(Cmd::MessageObject(30, ObjMessage::MTrigger), &t, &mut w), CommandAction::Nothing));
    match route_command(Cmd::ApplyForce(10, (1.0, -2.0)), &t, &mut w) {
        CommandAction::Push(i, f) => {
            assert_eq!(t.get(i).0, 10);
            assert_eq!(f, (1.0, -2.0));
        }
        _ => panic!("force not routed"),
    }
    match route_command(Cmd::Dialogue(3, String::from("hi")), &t, &mut w) {
        CommandAction::ShowDialogue(3, s) => assert_eq!(s, "hi"),
        _ => panic!("dialogue not routed"),
    }
    assert!(matches!(route_command(Cmd::CollectCrown, &t, &mut w), CommandAction::Nothing));
    match route_command(Cmd::Trigger(1), &t, &mut w) {
        CommandAction::Wake(i) => assert_eq!(t.get(i).0, 20),
        _ => panic!("trigger not routed"),
    }
    assert!(matches!(route_command(Cmd::Trigger(2), &t, &mut w), CommandAction::Nothing));
    assert!(matches!(route_command(Cmd::Trigger(3), &t, &mut w), CommandAction::Nothing));
}

#[test]
fn object_table_removal_keeps_survivors_in_order() {
    let mut t: ObjectTable<&str> = ObjectTable::new();
    t.extend(vec![(1, "a"), (2, "b1"), (2, "b2"), (2, "b3"), (3, "c")]);
    let removed = t.remove_ids(&vec![2, 1]);
    assert_eq!(removed.len(), 2);
    let rest: Vec<(u32, &str)> = (0..t.len()).map(|i| *t.get(i)).collect();
    assert_eq!(rest.len(), 3);
    let names: Vec<&str> = rest.iter().map(|e| e.1).collect();
    let b_left: Vec<&str> = names.iter().cloned().filter(|n| n.starts_with('b')).collect();
    assert_eq!(b_left.len(), 2);
    assert!(b_left[0] < b_left[1]);
    assert_eq!(rest[2], (3, "c"));
}

#[test]
fn object_table_removes_one_object_per_request() {
    let mut t: ObjectTable<&str> = ObjectTable::new();
    t.extend(vec![(2, "a"), (2, "b"), (5, "c")]);
    let removed = t.remove_ids(&vec![2]);
    assert_eq!(removed.len(), 1);
    assert_eq!(t.len(), 2);
    let removed = t.remove_ids(&vec![2, 2, 5, 5]);
    assert_eq!(removed.len(), 2);
    assert_eq!(t.len(), 0);
}
