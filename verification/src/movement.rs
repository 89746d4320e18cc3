//! The player state machine: movement, climbing, jumping, fake friction,
//! velocity clamping, gravity toggling and the water respawn hazard.
//!
//! Every function here is a pure step from the entity's records and the
//! tick's input snapshot to the next velocity or state; the physics engine
//! integrates velocities into positions outside this crate. Velocities and
//! positions are in integer world units.

use vstd::prelude::*;
use vstd::arithmetic::div_mod::lemma_fundamental_div_mod;
use vstd::arithmetic::div_mod::lemma_mod_division_less_than_divisor;

use crate::contacts::ContactSet;
use crate::tracker::Climber;
use crate::tracker::GroundDetection;
use crate::tracker::OverlapEvent;
use crate::tracker::touched_water;
use crate::tracker::touched_water_in;

verus! {

/// Vertical speed while actively climbing, in world units per second.
pub const CLIMB_SPEED: i64 = 150;

/// Where the player reappears after touching water.
pub const SPAWN_X: i64 = 200;
/// Where the player reappears after touching water.
pub const SPAWN_Y: i64 = -170;
/// Layer of the player sprite at the spawn point.
pub const SPAWN_Z: i64 = 10;

/// A linear velocity in world units per second.
#[derive(Clone, Copy, Debug, PartialEq, Eq, Structural)]
pub struct Velocity {
    pub x: i64,
    pub y: i64,
}

/// A world-space position.
#[derive(Clone, Copy, Debug, PartialEq, Eq, Structural)]
pub struct Position {
    pub x: i64,
    pub y: i64,
    pub z: i64,
}

/// The fixed respawn point.
pub open spec fn spawn_position() -> Position {
    Position { x: SPAWN_X, y: SPAWN_Y, z: SPAWN_Z }
}

/// The per-tick input snapshot: held keys plus whether jump was pressed
/// exactly this tick.
#[derive(Clone, Copy, Debug, PartialEq, Eq, Structural)]
pub struct InputState {
    pub left: bool,
    pub right: bool,
    pub up: bool,
    pub down: bool,
    pub jump: bool,
    pub jump_just_pressed: bool,
}

/// Immutable per-entity tuning values, set once at entity creation and read
/// every tick. The fake-friction coefficient is the negative fraction
/// `-friction_num / friction_den`.
#[derive(Clone, Copy, Debug, PartialEq, Eq, Structural)]
pub struct PlayerStats {
    pub acceleration: u32,
    pub max_speed_x: i64,
    pub max_speed_y: i64,
    pub jump_force: i64,
    pub friction_num: u32,
    pub friction_den: u32,
    pub snap_offset: i64,
}

impl PlayerStats {
    /// A stat block makes sense when the friction fraction is at most one
    /// and the speed bounds are not negative.
    pub open spec fn wf(&self) -> bool {
        &&& self.friction_den > 0
        &&& self.friction_num <= self.friction_den
        &&& self.max_speed_x >= 0
        &&& self.max_speed_y >= 0
    }

    /// The tuning the player entity is created with.
    pub fn player_default() -> (s: PlayerStats)
        ensures
            s.wf(),
            s.acceleration == 15,
            s.max_speed_x == 100,
            s.max_speed_y == 400,
            s.jump_force == 400,
            s.friction_num == 1,
            s.friction_den == 10,
            s.snap_offset == 0,
    {
        PlayerStats {
            acceleration: 15,
            max_speed_x: 100,
            max_speed_y: 400,
            jump_force: 400,
            friction_num: 1,
            friction_den: 10,
            snap_offset: 0,
        }
    }
}

/// The signed horizontal input axis: right minus left.
pub open spec fn horizontal_axis(input: InputState) -> int {
    (if input.right { 1int } else { 0int }) - (if input.left { 1int } else { 0int })
}

/// The signed vertical input axis: up minus down.
pub open spec fn vertical_axis(input: InputState) -> int {
    (if input.up { 1int } else { 0int }) - (if input.down { 1int } else { 0int })
}

/// The horizontal speed gained per tick of held input: the acceleration stat
/// plus half of it again, an intentional over-shoot curve.
pub open spec fn accel_delta(accel: int) -> int
    recommends accel >= 0,
{
    accel + accel / 2
}

/// The next climbing flag: no climbable contact forces climbing off;
/// otherwise vertical input turns it on, and failing that, jump input turns
/// it off; with no relevant input the flag keeps its value.
pub open spec fn spec_climbing_next(
    current: bool,
    contacts_empty: bool,
    up: bool,
    down: bool,
    jump: bool,
) -> bool {
    if contacts_empty {
        false
    } else if up || down {
        true
    } else if jump {
        false
    } else {
        current
    }
}

/// Re-derives the climbing flag from the climbable contacts and this tick's
/// input; the contact map itself is untouched.
pub fn update_climbing_status(climber: &mut Climber, input: &InputState)
    requires
        old(climber).intersecting_climbables.wf(),
    ensures
        final(climber).intersecting_climbables.wf(),
        final(climber).intersecting_climbables@ == old(climber).intersecting_climbables@,
        final(climber).climbing == spec_climbing_next(
            old(climber).climbing,
            old(climber).intersecting_climbables@.dom().is_empty(),
            input.up,
            input.down,
            input.jump,
        ),
{
    if climber.intersecting_climbables.is_empty() {
        climber.climbing = false;
    } else if input.up || input.down {
        climber.climbing = true;
    } else if input.jump {
        climber.climbing = false;
    }
}

/// With a climbable in reach, vertical input starts climbing next tick; a
/// jump press with no vertical input held stops it next tick, whatever the
/// contact set holds. (When vertical input and jump are held together, the
/// vertical input wins and climbing continues.)
pub proof fn lemma_climbing_transition(
    current: bool,
    contacts_empty: bool,
    up: bool,
    down: bool,
    jump: bool,
)
    ensures
        !contacts_empty && (up || down) ==> spec_climbing_next(
            current,
            contacts_empty,
            up,
            down,
            jump,
        ),
        jump && !up && !down ==> !spec_climbing_next(current, contacts_empty, up, down, jump),
{
}

/// Applies one tick of movement input to the velocity.
///
/// Horizontal velocity accumulates the over-shoot acceleration curve from
/// the held direction. While climbing, vertical velocity is set directly
/// from the vertical axis times the climb speed. A jump pressed this tick
/// while grounded or climbing sets vertical velocity to the jump-force stat
/// as an instantaneous impulse, overriding the climb speed.
pub fn player_movement(
    velocity: &mut Velocity,
    input: &InputState,
    stats: &PlayerStats,
    climbing: bool,
    grounded: bool,
)
    requires
        i64::MIN + 2 * (stats.acceleration as int) <= old(velocity).x,
        old(velocity).x <= i64::MAX - 2 * (stats.acceleration as int),
    ensures
        final(velocity).x == old(velocity).x + horizontal_axis(*input) * accel_delta(
            stats.acceleration as int,
        ),
        final(velocity).y == (if input.jump_just_pressed && (grounded || climbing) {
            stats.jump_force as int
        } else if climbing {
            vertical_axis(*input) * (CLIMB_SPEED as int)
        } else {
            old(velocity).y as int
        }),
{
    let half: u32 = stats.acceleration / 2;
    let dv: i64 = stats.acceleration as i64 + half as i64;
    if input.right && !input.left {
        velocity.x = velocity.x + dv;
        proof {
            assert(horizontal_axis(*input) == 1);
        }
    } else if input.left && !input.right {
        velocity.x = velocity.x - dv;
        proof {
            assert(horizontal_axis(*input) == -1);
        }
    } else {
        proof {
            assert(horizontal_axis(*input) == 0);
        }
    }

    if climbing {
        if input.up && !input.down {
            velocity.y = CLIMB_SPEED;
            proof {
                assert(vertical_axis(*input) == 1);
            }
        } else if input.down && !input.up {
            velocity.y = -CLIMB_SPEED;
            proof {
                assert(vertical_axis(*input) == -1);
            }
        } else {
            velocity.y = 0;
            proof {
                assert(vertical_axis(*input) == 0);
            }
        }
    }

    if input.jump_just_pressed && (grounded || climbing) {
        velocity.y = stats.jump_force;
    }
}

/// One application of fake friction: the velocity moves toward zero by the
/// truncated fraction `num/den` of itself, i.e. `v + v * c` for the negative
/// coefficient `c = -num/den`.
pub open spec fn friction_step_spec(v: int, num: int, den: int) -> int
    recommends
        den > 0,
{
    if v >= 0 {
        v - (v * num) / den
    } else {
        v + ((-v) * num) / den
    }
}

/// Bounds on the truncated fraction `(v * num) / den` of a non-negative
/// speed: it is never negative, never exceeds the speed while the fraction
/// is at most one, stays strictly below it while the fraction is strictly
/// below one, and is at least one as soon as `v * num` reaches `den`.
proof fn lemma_fraction_bounds(v: int, num: int, den: int)
    requires
        0 <= v,
        0 < den,
        0 <= num <= den,
    ensures
        0 <= (v * num) / den <= v,
        num < den && v > 0 ==> (v * num) / den < v,
        v * num >= den ==> (v * num) / den >= 1,
{
    let q = (v * num) / den;
    let r = (v * num) % den;
    lemma_fundamental_div_mod(v * num, den);
    lemma_mod_division_less_than_divisor(v * num, den);
    assert(0 <= v * num) by (nonlinear_arith)
        requires
            0 <= v,
            0 <= num,
    ;
    assert(v * num <= v * den) by (nonlinear_arith)
        requires
            0 <= v,
            num <= den,
    ;
    assert(0 <= q) by (nonlinear_arith)
        requires
            den * q + r == v * num,
            0 <= r < den,
            0 <= v * num,
            0 < den,
    ;
    assert(q <= v) by (nonlinear_arith)
        requires
            den * q + r == v * num,
            0 <= r,
            v * num <= v * den,
            0 < den,
            0 <= v,
    ;
    if num < den && v > 0 {
        assert(v * num <= v * den - v) by (nonlinear_arith)
            requires
                0 < v,
                num < den,
        ;
        assert(q < v) by (nonlinear_arith)
            requires
                den * q + r == v * num,
                0 <= r,
                v * num <= v * den - v,
                0 < v,
                0 < den,
        ;
    }
    if v * num >= den {
        assert(q >= 1) by (nonlinear_arith)
            requires
                den * q + r == v * num,
                r < den,
                v * num >= den,
                0 < den,
        ;
    }
}

/// Applies one fake-friction step to a horizontal velocity.
pub fn friction_step(v: i64, friction_num: u32, friction_den: u32) -> (r: i64)
    requires
        friction_den > 0,
        friction_num <= friction_den,
        v > i64::MIN,
    ensures
        r == friction_step_spec(v as int, friction_num as int, friction_den as int),
{
    if v >= 0 {
        proof {
            lemma_fraction_bounds(v as int, friction_num as int, friction_den as int);
            assert((v as int) * (friction_num as int) <= 0x7fffffffffffffff * 0xffffffff)
                by (nonlinear_arith)
                requires
                    0 <= v <= 0x7fffffffffffffff,
                    0 <= friction_num <= 0xffffffffu32,
            ;
        }
        let prod: u128 = (v as u128) * (friction_num as u128);
        let red: u128 = prod / (friction_den as u128);
        v - (red as i64)
    } else {
        let mag: i64 = -v;
        proof {
            lemma_fraction_bounds(mag as int, friction_num as int, friction_den as int);
            assert((mag as int) * (friction_num as int) <= 0x7fffffffffffffff * 0xffffffff)
                by (nonlinear_arith)
                requires
                    0 <= mag <= 0x7fffffffffffffff,
                    0 <= friction_num <= 0xffffffffu32,
            ;
        }
        let prod: u128 = (mag as u128) * (friction_num as u128);
        let red: u128 = prod / (friction_den as u128);
        v + (red as i64)
    }
}

/// Fake friction converges: with a strictly negative fractional coefficient
/// `-num/den`, one step keeps the velocity's sign, never overshoots zero,
/// never turns a non-zero velocity into exactly zero, and strictly shrinks
/// the speed while `|v| * num` is at least `den`. Iterating the step
/// therefore drives the speed monotonically toward zero without reaching it.
pub proof fn lemma_friction_convergence(v: int, num: int, den: int)
    requires
        0 < num < den,
    ensures
        v > 0 ==> 0 < friction_step_spec(v, num, den) <= v,
        v < 0 ==> v <= friction_step_spec(v, num, den) < 0,
        v == 0 ==> friction_step_spec(v, num, den) == 0,
        v * num >= den ==> friction_step_spec(v, num, den) < v,
        v * num <= -den ==> friction_step_spec(v, num, den) > v,
{
    if v > 0 {
        lemma_fraction_bounds(v, num, den);
    } else if v < 0 {
        lemma_fraction_bounds(-v, num, den);
        assert((-v) * num == -(v * num)) by (nonlinear_arith);
    } else {
        lemma_fraction_bounds(0, num, den);
    }
}

/// The horizontal velocity after `n` ticks of fake friction.
pub open spec fn friction_iter(v: int, num: int, den: int, n: nat) -> int
    decreases n,
{
    if n == 0 {
        v
    } else {
        friction_step_spec(friction_iter(v, num, den, (n - 1) as nat), num, den)
    }
}

/// Over any finite number of ticks, fake friction keeps the velocity's sign,
/// shrinks the speed monotonically from one tick to the next, and never
/// reaches exactly zero from a non-zero start.
pub proof fn lemma_friction_iter_convergence(v: int, num: int, den: int, n: nat)
    requires
        0 < num < den,
    ensures
        v > 0 ==> 0 < friction_iter(v, num, den, n) <= v,
        v < 0 ==> v <= friction_iter(v, num, den, n) < 0,
        v == 0 ==> friction_iter(v, num, den, n) == 0,
        n > 0 && v > 0 ==> friction_iter(v, num, den, n) <= friction_iter(
            v,
            num,
            den,
            (n - 1) as nat,
        ),
        n > 0 && v < 0 ==> friction_iter(v, num, den, n) >= friction_iter(
            v,
            num,
            den,
            (n - 1) as nat,
        ),
    decreases n,
{
    if n > 0 {
        lemma_friction_iter_convergence(v, num, den, (n - 1) as nat);
        lemma_friction_convergence(friction_iter(v, num, den, (n - 1) as nat), num, den);
    }
}

/// Applies fake friction to the horizontal velocity while on the ground.
pub fn apply_fake_friction_on_ground(
    velocity: &mut Velocity,
    stats: &PlayerStats,
    detection: &GroundDetection,
)
    requires
        stats.wf(),
        old(velocity).x > i64::MIN,
    ensures
        final(velocity).y == old(velocity).y,
        detection.on_ground ==> final(velocity).x == friction_step_spec(
            old(velocity).x as int,
            stats.friction_num as int,
            stats.friction_den as int,
        ),
        !detection.on_ground ==> final(velocity).x == old(velocity).x,
{
    if detection.on_ground {
        velocity.x = friction_step(velocity.x, stats.friction_num, stats.friction_den);
    }
}

/// Applies fake friction to the horizontal velocity while climbing.
pub fn apply_fake_friction_while_climbing(
    velocity: &mut Velocity,
    stats: &PlayerStats,
    climber: &Climber,
)
    requires
        stats.wf(),
        old(velocity).x > i64::MIN,
    ensures
        final(velocity).y == old(velocity).y,
        climber.climbing ==> final(velocity).x == friction_step_spec(
            old(velocity).x as int,
            stats.friction_num as int,
            stats.friction_den as int,
        ),
        !climber.climbing ==> final(velocity).x == old(velocity).x,
{
    if climber.climbing {
        velocity.x = friction_step(velocity.x, stats.friction_num, stats.friction_den);
    }
}

/// A value forced into `[lo, hi]`.
pub open spec fn spec_clamp(v: int, lo: int, hi: int) -> int
    recommends
        lo <= hi,
{
    if v < lo {
        lo
    } else if v > hi {
        hi
    } else {
        v
    }
}

/// Clamps each velocity axis independently to the entity's speed bounds;
/// runs last in the tick, so the physics integrator never sees a speed
/// beyond the stats.
pub fn clamp_velocity(velocity: &mut Velocity, stats: &PlayerStats)
    requires
        stats.wf(),
    ensures
        final(velocity).x == spec_clamp(
            old(velocity).x as int,
            -stats.max_speed_x as int,
            stats.max_speed_x as int,
        ),
        final(velocity).y == spec_clamp(
            old(velocity).y as int,
            -stats.max_speed_y as int,
            stats.max_speed_y as int,
        ),
        -stats.max_speed_x <= final(velocity).x <= stats.max_speed_x,
        -stats.max_speed_y <= final(velocity).y <= stats.max_speed_y,
{
    if velocity.x < -stats.max_speed_x {
        velocity.x = -stats.max_speed_x;
    } else if velocity.x > stats.max_speed_x {
        velocity.x = stats.max_speed_x;
    }
    if velocity.y < -stats.max_speed_y {
        velocity.y = -stats.max_speed_y;
    } else if velocity.y > stats.max_speed_y {
        velocity.y = stats.max_speed_y;
    }
}

/// Gravity is switched off exactly while climbing; the caller invokes this
/// only when the climbing flag actually changed, to avoid redundant writes.
pub fn ignore_gravity_if_climbing(gravity_scale: &mut u32, climber: &Climber)
    ensures
        climber.climbing ==> *final(gravity_scale) == 0,
        !climber.climbing ==> *final(gravity_scale) == 1,
{
    if climber.climbing {
        *gravity_scale = 0;
    } else {
        *gravity_scale = 1;
    }
}

/// While actively climbing (moving vertically on a climbable), horizontal
/// drift stops and the player snaps to the recorded anchor of one current
/// climbable contact, shifted by the snap-offset stat; with no contact
/// recorded the position is left alone.
pub fn snap_player_to_climbable(
    position: &mut Position,
    velocity: &mut Velocity,
    climber: &Climber,
    snap_offset: i64,
)
    requires
        climber.intersecting_climbables.wf(),
        forall|id: u64|
            climber.intersecting_climbables@.dom().contains(id) ==> i64::MIN
                <= #[trigger] climber.intersecting_climbables@[id] + snap_offset <= i64::MAX,
    ensures
        final(position).y == old(position).y,
        final(position).z == old(position).z,
        final(velocity).y == old(velocity).y,
        !(climber.climbing && old(velocity).y != 0) ==> *final(position) == *old(position)
            && *final(velocity) == *old(velocity),
        climber.climbing && old(velocity).y != 0 ==> final(velocity).x == 0
            && (climber.intersecting_climbables@.dom().is_empty() ==> final(position).x == old(
            position,
        ).x) && (!climber.intersecting_climbables@.dom().is_empty() ==> exists|id: u64|
            climber.intersecting_climbables@.dom().contains(id) && final(position).x
                == #[trigger] climber.intersecting_climbables@[id] + snap_offset),
{
    if climber.climbing && velocity.y != 0 {
        velocity.x = 0;
        match climber.intersecting_climbables.first() {
            Some(contact) => {
                position.x = contact.anchor_x + snap_offset;
                proof {
                    assert(climber.intersecting_climbables@.dom().contains(contact.id)
                        && position.x == climber.intersecting_climbables@[contact.id]
                        + snap_offset);
                }
            },
            None => {},
        }
    }
}

/// The water-respawn hazard: an overlap-begin between the player and any
/// water-tagged body this tick forces the position back to the fixed spawn
/// point and the active level index back to the first level; otherwise both
/// are left untouched.
pub fn check_touched_water(
    position: &mut Position,
    level_index: &mut usize,
    events: &Vec<OverlapEvent>,
    player: u64,
    waters: &ContactSet,
)
    ensures
        touched_water(events@, player, waters@) ==> *final(position) == spawn_position()
            && *final(level_index) == 0,
        !touched_water(events@, player, waters@) ==> *final(position) == *old(position)
            && *final(level_index) == *old(level_index),
{
    if touched_water_in(events, player, waters) {
        position.x = SPAWN_X;
        position.y = SPAWN_Y;
        position.z = SPAWN_Z;
        *level_index = 0;
    }
}

} // verus!
