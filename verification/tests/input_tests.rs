use noise::flags::{GrappleInput, HumanoidInput};
use noise::input::{
    dash_vertical_dir, grapple_direction, grapple_press, grapple_release, holster_action, horizontal_dir,
    player_press, player_release, GrappleState, HolsterAction, Key,
};

#[test]
fn player_keys() {
    let mut i = HumanoidInput::none();
    i = player_press(i, Key::W);
    i = player_press(i, Key::A);
    assert!(i.contains(HumanoidInput::jump()));
    assert!(i.contains(HumanoidInput::left()));
    i = player_release(i, Key::W);
    assert!(!i.contains(HumanoidInput::jump()));
    assert!(i.contains(HumanoidInput::left()));
    assert_eq!(player_press(i, Key::Up), i);
    assert_eq!(player_press(HumanoidInput::none(), Key::Space), HumanoidInput::dash());
    assert_eq!(player_press(HumanoidInput::none(), Key::S), HumanoidInput::fall());
    assert_eq!(player_press(HumanoidInput::none(), Key::D), HumanoidInput::right());
}

#[test]
fn grapple_keys_and_direction() {
    let mut g = GrappleInput::none();
    g = grapple_press(g, Key::Up);
    g = grapple_press(g, Key::Right);
    assert_eq!(grapple_direction(g), (1, -1));
    g = grapple_press(g, Key::Left);
    assert_eq!(grapple_direction(g), (0, -1));
    g = grapple_release(g, Key::Up);
    g = grapple_press(g, Key::Down);
    assert_eq!(grapple_direction(g), (0, 1));
    assert_eq!(grapple_press(GrappleInput::none(), Key::LShift), GrappleInput::retract());
    assert_eq!(grapple_press(GrappleInput::none(), Key::W), GrappleInput::none());
}

#[test]
fn movement_directions() {
    let both = HumanoidInput::left().union(HumanoidInput::right());
    assert_eq!(horizontal_dir(both), 0);
    assert_eq!(horizontal_dir(HumanoidInput::left()), -1);
    assert_eq!(horizontal_dir(HumanoidInput::right()), 1);
    assert_eq!(dash_vertical_dir(HumanoidInput::fall()), 1);
    assert_eq!(dash_vertical_dir(HumanoidInput::jump()), -1);
    assert_eq!(dash_vertical_dir(HumanoidInput::none()), 0);
}

#[test]
fn holster_decisions() {
    let none = GrappleInput::none();
    let up = GrappleInput::up();
    let reel = GrappleInput::up().union(GrappleInput::retract());
    let holstered: GrappleState<f64> = GrappleState::Holstered;
    assert_eq!(holster_action(&holstered, true, up), HolsterAction::Shoot);
    assert_eq!(holster_action(&holstered, false, up), HolsterAction::Wait);
    assert_eq!(holster_action(&holstered, true, none), HolsterAction::Wait);
    let out: GrappleState<f64> = GrappleState::Out;
    assert_eq!(holster_action(&out, false, up), HolsterAction::Steer);
    assert_eq!(holster_action(&out, true, none), HolsterAction::Recall);
    let locked = GrappleState::Locked(120.0);
    assert_eq!(holster_action(&locked, true, none), HolsterAction::Unhook);
    assert_eq!(holster_action(&locked, true, reel), HolsterAction::Retract);
    assert_eq!(holster_action(&locked, true, up), HolsterAction::Hold);
}
