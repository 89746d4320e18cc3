use platformer_core::contacts::ClimbContacts;
use platformer_core::movement::InputState;
use platformer_core::movement::PlayerStats;
use platformer_core::movement::Position;
use platformer_core::movement::Velocity;
use platformer_core::movement::apply_fake_friction_on_ground;
use platformer_core::movement::apply_fake_friction_while_climbing;
use platformer_core::movement::clamp_velocity;
use platformer_core::movement::friction_step;
use platformer_core::movement::ignore_gravity_if_climbing;
use platformer_core::movement::player_movement;
use platformer_core::movement::snap_player_to_climbable;
use platformer_core::movement::update_climbing_status;
use platformer_core::tracker::Climber;
use platformer_core::tracker::GroundDetection;

fn no_input() -> InputState {
    InputState {
        left: false,
        right: false,
        up: false,
        down: false,
        jump: false,
        jump_just_pressed: false,
    }
}

fn climber_on_ladder() -> Climber {
    let mut contacts = ClimbContacts::new();
    contacts.insert(20, 320);
    Climber { climbing: false, intersecting_climbables: contacts }
}

#[test]
fn vertical_input_starts_climbing() {
    let mut climber = climber_on_ladder();
    let input = InputState { up: true, ..no_input() };
    update_climbing_status(&mut climber, &input);
    assert!(climber.climbing);

    let mut climber = climber_on_ladder();
    let input = InputState { down: true, ..no_input() };
    update_climbing_status(&mut climber, &input);
    assert!(climber.climbing);
}

#[test]
fn jump_input_stops_climbing_whatever_the_contacts() {
    let mut climber = climber_on_ladder();
    climber.climbing = true;
    let input = InputState { jump: true, ..no_input() };
    update_climbing_status(&mut climber, &input);
    assert!(!climber.climbing);
}

#[test]
fn no_contact_forces_climbing_off() {
    let mut climber = Climber { climbing: true, intersecting_climbables: ClimbContacts::new() };
    let input = InputState { up: true, ..no_input() };
    update_climbing_status(&mut climber, &input);
    assert!(!climber.climbing);
}

#[test]
fn idle_input_keeps_the_climbing_flag() {
    let mut climber = climber_on_ladder();
    climber.climbing = true;
    update_climbing_status(&mut climber, &no_input());
    assert!(climber.climbing);
}

#[test]
fn held_direction_accumulates_overshoot_acceleration() {
    let stats = PlayerStats::player_default();
    let mut velocity = Velocity { x: 0, y: 0 };
    let input = InputState { right: true, ..no_input() };
    player_movement(&mut velocity, &input, &stats, false, false);
    // acceleration 15 gains 15 + 15 / 2 = 22 per tick.
    assert_eq!(velocity.x, 22);
    let input = InputState { left: true, ..no_input() };
    player_movement(&mut velocity, &input, &stats, false, false);
    assert_eq!(velocity.x, 0);
    player_movement(&mut velocity, &no_input(), &stats, false, false);
    assert_eq!(velocity.x, 0);
}

#[test]
fn climbing_sets_vertical_speed_directly() {
    let stats = PlayerStats::player_default();
    let mut velocity = Velocity { x: 0, y: 77 };
    let input = InputState { up: true, ..no_input() };
    player_movement(&mut velocity, &input, &stats, true, false);
    assert_eq!(velocity.y, 150);
    let input = InputState { down: true, ..no_input() };
    player_movement(&mut velocity, &input, &stats, true, false);
    assert_eq!(velocity.y, -150);
    player_movement(&mut velocity, &no_input(), &stats, true, false);
    assert_eq!(velocity.y, 0);
}

#[test]
fn jump_is_an_instantaneous_impulse() {
    let stats = PlayerStats::player_default();
    let mut velocity = Velocity { x: 0, y: -50 };
    let input = InputState { jump_just_pressed: true, ..no_input() };
    // Airborne and not climbing: no jump.
    player_movement(&mut velocity, &input, &stats, false, false);
    assert_eq!(velocity.y, -50);
    // Grounded: vertical velocity is set, not added.
    player_movement(&mut velocity, &input, &stats, false, true);
    assert_eq!(velocity.y, 400);
    // Climbing: the impulse overrides the climb speed.
    let input = InputState { up: true, jump_just_pressed: true, ..no_input() };
    player_movement(&mut velocity, &input, &stats, true, false);
    assert_eq!(velocity.y, 400);
}

#[test]
fn fake_friction_decays_toward_zero_without_crossing() {
    // coefficient -1/10: v + v * c, truncated toward zero.
    assert_eq!(friction_step(100, 1, 10), 90);
    assert_eq!(friction_step(90, 1, 10), 81);
    assert_eq!(friction_step(81, 1, 10), 73);
    assert_eq!(friction_step(-100, 1, 10), -90);
    assert_eq!(friction_step(0, 1, 10), 0);
    // Below the fraction's granularity the speed no longer shrinks, and in
    // particular never reaches zero from a non-zero start.
    assert_eq!(friction_step(5, 1, 10), 5);
    let mut v: i64 = 1000;
    for _ in 0..100 {
        let next = friction_step(v, 1, 10);
        assert!(0 < next && next <= v);
        v = next;
    }
}

#[test]
fn friction_applies_only_in_the_matching_state() {
    let stats = PlayerStats::player_default();
    let grounded = GroundDetection { on_ground: true };
    let airborne = GroundDetection { on_ground: false };
    let mut velocity = Velocity { x: 100, y: 5 };
    apply_fake_friction_on_ground(&mut velocity, &stats, &airborne);
    assert_eq!(velocity.x, 100);
    apply_fake_friction_on_ground(&mut velocity, &stats, &grounded);
    assert_eq!(velocity.x, 90);
    assert_eq!(velocity.y, 5);

    let mut climber = climber_on_ladder();
    apply_fake_friction_while_climbing(&mut velocity, &stats, &climber);
    assert_eq!(velocity.x, 90);
    climber.climbing = true;
    apply_fake_friction_while_climbing(&mut velocity, &stats, &climber);
    assert_eq!(velocity.x, 81);
}

#[test]
fn velocity_is_clamped_per_axis() {
    let stats = PlayerStats::player_default();
    let mut velocity = Velocity { x: 250, y: -1000 };
    clamp_velocity(&mut velocity, &stats);
    assert_eq!(velocity, Velocity { x: 100, y: -400 });
    let mut velocity = Velocity { x: -42, y: 399 };
    clamp_velocity(&mut velocity, &stats);
    assert_eq!(velocity, Velocity { x: -42, y: 399 });
}

#[test]
fn gravity_is_off_exactly_while_climbing() {
    let mut scale: u32 = 1;
    let mut climber = climber_on_ladder();
    climber.climbing = true;
    ignore_gravity_if_climbing(&mut scale, &climber);
    assert_eq!(scale, 0);
    climber.climbing = false;
    ignore_gravity_if_climbing(&mut scale, &climber);
    assert_eq!(scale, 1);
}

#[test]
fn active_climbing_snaps_to_the_ladder() {
    let mut climber = climber_on_ladder();
    climber.climbing = true;
    let mut position = Position { x: 500, y: 60, z: 10 };
    let mut velocity = Velocity { x: 33, y: 150 };
    snap_player_to_climbable(&mut position, &mut velocity, &climber, 2);
    assert_eq!(velocity, Velocity { x: 0, y: 150 });
    assert_eq!(position, Position { x: 322, y: 60, z: 10 });
}

#[test]
fn hanging_still_or_not_climbing_does_not_snap() {
    let mut climber = climber_on_ladder();
    climber.climbing = true;
    let mut position = Position { x: 500, y: 60, z: 10 };
    let mut velocity = Velocity { x: 33, y: 0 };
    snap_player_to_climbable(&mut position, &mut velocity, &climber, 2);
    assert_eq!(velocity, Velocity { x: 33, y: 0 });
    assert_eq!(position, Position { x: 500, y: 60, z: 10 });

    climber.climbing = false;
    velocity.y = 150;
    snap_player_to_climbable(&mut position, &mut velocity, &climber, 2);
    assert_eq!(position.x, 500);
}
