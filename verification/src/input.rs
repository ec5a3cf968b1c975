//! Keyboard input: which keys steer the player and which steer the grapple,
//! how held keys become movement flags, and what the grapple holster does
//! with the keys held on each tick.
use vstd::prelude::*;
use crate::flags::{GrappleInput, HumanoidInput};

verus! {

/// The keys the game listens to; every other key is `Other`.
#[derive(Clone, Copy, PartialEq, Eq, Structural, Debug)]
pub enum Key {
    W,
    A,
    S,
    D,
    Space,
    Up,
    Down,
    Left,
    Right,
    LShift,
    Other,
}

/// The movement flag that a key sets for the player: W jumps, S falls
/// through platforms, A and D run left and right, Space dashes.
pub open spec fn spec_player_flag(key: Key) -> u16 {
    match key {
        Key::W => 0b00001000,
        Key::S => 0b00000100,
        Key::A => 0b00000001,
        Key::D => 0b00000010,
        Key::Space => 0b00010000,
        _ => 0,
    }
}

/// The grapple flag that a key sets: the arrow keys aim, left shift
/// retracts.
pub open spec fn spec_grapple_flag(key: Key) -> u16 {
    match key {
        Key::Up => 0b00001000,
        Key::Down => 0b00000100,
        Key::Left => 0b00000001,
        Key::Right => 0b00000010,
        Key::LShift => 0b00010000,
        _ => 0,
    }
}

pub fn player_flag(key: Key) -> (f: HumanoidInput)
    ensures
        f.bits == spec_player_flag(key),
{
    match key {
        Key::W => HumanoidInput::jump(),
        Key::S => HumanoidInput::fall(),
        Key::A => HumanoidInput::left(),
        Key::D => HumanoidInput::right(),
        Key::Space => HumanoidInput::dash(),
        _ => HumanoidInput::none(),
    }
}

pub fn grapple_flag(key: Key) -> (f: GrappleInput)
    ensures
        f.bits == spec_grapple_flag(key),
{
    match key {
        Key::Up => GrappleInput::up(),
        Key::Down => GrappleInput::down(),
        Key::Left => GrappleInput::left(),
        Key::Right => GrappleInput::right(),
        Key::LShift => GrappleInput::retract(),
        _ => GrappleInput::none(),
    }
}

/// The player's held movement keys after `key` is pressed.
pub fn player_press(input: HumanoidInput, key: Key) -> (r: HumanoidInput)
    ensures
        r.bits == input.bits | spec_player_flag(key),
{
    input.union(player_flag(key))
}

/// The player's held movement keys after `key` is released.
pub fn player_release(input: HumanoidInput, key: Key) -> (r: HumanoidInput)
    ensures
        r.bits == input.bits & !spec_player_flag(key),
{
    input.difference(player_flag(key))
}

/// The held grapple keys after `key` is pressed.
pub fn grapple_press(input: GrappleInput, key: Key) -> (r: GrappleInput)
    ensures
        r.bits == input.bits | spec_grapple_flag(key),
{
    input.union(grapple_flag(key))
}

/// The held grapple keys after `key` is released.
pub fn grapple_release(input: GrappleInput, key: Key) -> (r: GrappleInput)
    ensures
        r.bits == input.bits & !spec_grapple_flag(key),
{
    input.difference(grapple_flag(key))
}

/// Pressing a key sets its flag; releasing it clears that flag and no
/// other; pressing and then releasing a key leaves the other flags as they
/// were; keys the player does not use change nothing.
pub proof fn lemma_press_release(bits: u16, flag: u16, other: u16)
    requires
        flag & other == 0,
    ensures
        (bits | flag) & flag == flag,
        (bits & !flag) & flag == 0,
        ((bits | flag) & !flag) & other == bits & other,
        (bits & !flag) & other == bits & other,
        (bits | 0) == bits,
        (bits & !0u16) == bits,
{
    assert((bits | flag) & flag == flag) by (bit_vector);
    assert((bits & !flag) & flag == 0) by (bit_vector);
    assert(flag & other == 0 ==> ((bits | flag) & !flag) & other == bits & other) by (bit_vector);
    assert(flag & other == 0 ==> (bits & !flag) & other == bits & other) by (bit_vector);
    assert((bits | 0) == bits && (bits & !0u16) == bits) by (bit_vector);
}

/// The horizontal direction the held keys ask for: −1 left, +1 right, 0
/// for neither or both.
pub fn horizontal_dir(input: HumanoidInput) -> (d: i32)
    ensures
        d == (if input.spec_contains(HumanoidInput { bits: 0b00000010 }) {
            1i32
        } else {
            0i32
        }) - (if input.spec_contains(HumanoidInput { bits: 0b00000001 }) {
            1i32
        } else {
            0i32
        }),
{
    let right: i32 = if input.contains(HumanoidInput::right()) {
        1
    } else {
        0
    };
    let left: i32 = if input.contains(HumanoidInput::left()) {
        1
    } else {
        0
    };
    right - left
}

/// The vertical direction of a dash: +1 (down) when falling, −1 (up) when
/// jumping, 0 for neither or both.
pub fn dash_vertical_dir(input: HumanoidInput) -> (d: i32)
    ensures
        d == (if input.spec_contains(HumanoidInput { bits: 0b00000100 }) {
            1i32
        } else {
            0i32
        }) - (if input.spec_contains(HumanoidInput { bits: 0b00001000 }) {
            1i32
        } else {
            0i32
        }),
{
    let fall: i32 = if input.contains(HumanoidInput::fall()) {
        1
    } else {
        0
    };
    let jump: i32 = if input.contains(HumanoidInput::jump()) {
        1
    } else {
        0
    };
    fall - jump
}

/// The direction the held grapple keys aim at, one step per axis: x grows
/// to the right and y grows downwards.
pub fn grapple_direction(input: GrappleInput) -> (d: (i32, i32))
    ensures
        d.0 == (if input.spec_contains(GrappleInput { bits: 0b00000010 }) {
            1i32
        } else {
            0i32
        }) - (if input.spec_contains(GrappleInput { bits: 0b00000001 }) {
            1i32
        } else {
            0i32
        }),
        d.1 == (if input.spec_contains(GrappleInput { bits: 0b00000100 }) {
            1i32
        } else {
            0i32
        }) - (if input.spec_contains(GrappleInput { bits: 0b00001000 }) {
            1i32
        } else {
            0i32
        }),
{
    let mut x: i32 = 0;
    let mut y: i32 = 0;
    if input.contains(GrappleInput::left()) {
        x = x - 1;
    }
    if input.contains(GrappleInput::right()) {
        x = x + 1;
    }
    if input.contains(GrappleInput::up()) {
        y = y - 1;
    }
    if input.contains(GrappleInput::down()) {
        y = y + 1;
    }
    (x, y)
}

/// Where the grapple is: in the holster, flying out, or hooked with a rope
/// of length `L`.
#[derive(Clone, Copy, PartialEq, Eq, Debug)]
pub enum GrappleState<L> {
    Holstered,
    Out,
    Locked(L),
}

/// What the holster does with the grapple on a tick.
#[derive(Clone, Copy, PartialEq, Eq, Structural, Debug)]
pub enum HolsterAction {
    /// Nothing happens.
    Wait,
    /// Shoot the grapple in the aimed direction and restart the cooldown.
    Shoot,
    /// Keep steering the flying grapple in the aimed direction.
    Steer,
    /// Call the flying grapple back.
    Recall,
    /// Unhook: tell the player the swing is over and call the grapple back.
    Unhook,
    /// Reel the rope in.
    Retract,
    /// Hold the rope at its length.
    Hold,
}

pub open spec fn spec_holster_action<L>(state: GrappleState<L>, cooldown_over: bool, input: GrappleInput) -> HolsterAction {
    match state {
        GrappleState::Holstered => if cooldown_over && input.bits != 0 {
            HolsterAction::Shoot
        } else {
            HolsterAction::Wait
        },
        GrappleState::Out => if input.bits == 0 {
            HolsterAction::Recall
        } else {
            HolsterAction::Steer
        },
        GrappleState::Locked(_) => if input.bits == 0 {
            HolsterAction::Unhook
        } else if input.spec_contains(GrappleInput { bits: 0b00010000 }) {
            HolsterAction::Retract
        } else {
            HolsterAction::Hold
        },
    }
}

/// The holster's decision on a tick: a holstered grapple is shot once the
/// cooldown is over and some grapple key is held; a flying grapple is
/// steered while keys are held and recalled when none is; a hooked grapple
/// unhooks when no key is held, reels in while the retract key is held, and
/// otherwise holds.
pub fn holster_action<L>(state: &GrappleState<L>, cooldown_over: bool, input: GrappleInput) -> (a: HolsterAction)
    ensures
        a == spec_holster_action(*state, cooldown_over, input),
{
    match state {
        GrappleState::Holstered => if cooldown_over && !input.is_empty() {
            HolsterAction::Shoot
        } else {
            HolsterAction::Wait
        },
        GrappleState::Out => if input.is_empty() {
            HolsterAction::Recall
        } else {
            HolsterAction::Steer
        },
        GrappleState::Locked(_) => if input.is_empty() {
            HolsterAction::Unhook
        } else if input.contains(GrappleInput::retract()) {
            HolsterAction::Retract
        } else {
            HolsterAction::Hold
        },
    }
}

/// The player moves only by W (jump), S (fall), A (left), D (right) and
/// Space (dash), each setting its own flag: every other key, the arrow keys
/// and left shift of the grapple among them, sets no player flag, so
/// pressing or releasing it leaves the player's movement input as it was.
pub proof fn lemma_player_keys(key: Key, bits: u16)
    ensures
        key != Key::W && key != Key::S && key != Key::A && key != Key::D && key != Key::Space
            ==> spec_player_flag(key) == 0 && (bits | spec_player_flag(key)) == bits && (bits
            & !spec_player_flag(key)) == bits,
        key == Key::W ==> spec_player_flag(key) == 0b00001000,
        key == Key::S ==> spec_player_flag(key) == 0b00000100,
        key == Key::A ==> spec_player_flag(key) == 0b00000001,
        key == Key::D ==> spec_player_flag(key) == 0b00000010,
        key == Key::Space ==> spec_player_flag(key) == 0b00010000,
{
    assert((bits | 0u16) == bits && (bits & !0u16) == bits) by (bit_vector);
}

/// The grapple listens only to the arrow keys (aim) and left shift
/// (retract), each setting its own flag: every other key, the player's W, A,
/// S, D and Space among them, sets no grapple flag, so pressing or releasing
/// it leaves the grapple input as it was.
pub proof fn lemma_grapple_keys(key: Key, bits: u16)
    ensures
        key != Key::Up && key != Key::Down && key != Key::Left && key != Key::Right && key != Key::LShift
            ==> spec_grapple_flag(key) == 0 && (bits | spec_grapple_flag(key)) == bits && (bits
            & !spec_grapple_flag(key)) == bits,
        key == Key::Up ==> spec_grapple_flag(key) == 0b00001000,
        key == Key::Down ==> spec_grapple_flag(key) == 0b00000100,
        key == Key::Left ==> spec_grapple_flag(key) == 0b00000001,
        key == Key::Right ==> spec_grapple_flag(key) == 0b00000010,
        key == Key::LShift ==> spec_grapple_flag(key) == 0b00010000,
{
    assert((bits | 0u16) == bits && (bits & !0u16) == bits) by (bit_vector);
}

/// The holster's decisions, over every state, cooldown and input: a
/// holstered grapple shoots exactly when the cooldown is over and some key
/// is held, and otherwise waits; a flying grapple is recalled exactly when
/// no key is held, and steered otherwise; a hooked grapple unhooks exactly
/// when no key is held, reels in whenever the retract key is held (alone or
/// with others), and otherwise holds. No state leads to an action of
/// another state.
pub proof fn lemma_holster_decisions<L>(state: GrappleState<L>, cooldown_over: bool, input: GrappleInput)
    ensures
        ({
            let a = spec_holster_action(state, cooldown_over, input);
            &&& state is Holstered ==> (a == HolsterAction::Shoot <==> cooldown_over && input.bits != 0)
                && (a == HolsterAction::Shoot || a == HolsterAction::Wait)
            &&& state is Out ==> (a == HolsterAction::Recall <==> input.bits == 0) && (a
                == HolsterAction::Recall || a == HolsterAction::Steer)
            &&& state is Locked ==> (a == HolsterAction::Unhook <==> input.bits == 0)
                && (input.bits & 0b00010000 != 0 ==> a == HolsterAction::Retract)
                && (input.bits != 0 && input.bits & 0b00010000 == 0 ==> a == HolsterAction::Hold)
            &&& a == HolsterAction::Unhook ==> input.bits == 0
            &&& a == HolsterAction::Shoot ==> cooldown_over
        }),
{
    let b = input.bits;
    assert((b & 0b00010000u16 != 0u16) ==> b != 0u16) by (bit_vector);
    assert((b & 0b00010000u16 == 0b00010000u16) == (b & 0b00010000u16 != 0u16)) by (bit_vector);
}

} // verus!
