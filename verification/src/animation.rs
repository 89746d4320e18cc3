//! Selecting an animation clip from the player's velocity and state.
//!
//! Clip playback itself (frame timing, sprite-sheet indices) is external;
//! this module only decides which named clip should play, whether its frame
//! clock should advance this tick, and which way the sprite faces.

use vstd::prelude::*;

verus! {

/// Horizontal speed (in world units per second) above which the walk
/// animation plays and the sprite may flip.
pub const WALK_ANIMATION_THRESHOLD: i64 = 15;

/// A named animation clip; the caller owns the frame tables.
#[derive(Clone, Copy, Debug, PartialEq, Eq, Structural)]
pub enum AnimationClip {
    Idle,
    Walk,
    Climb,
    JumpUp,
    JumpDown,
}

/// What the animation system should do this tick: play `clip`, and advance
/// its frame clock only when `advance` holds (a climber hanging still keeps
/// its current frame).
#[derive(Clone, Copy, Debug, PartialEq, Eq, Structural)]
pub struct AnimationChoice {
    pub clip: AnimationClip,
    pub advance: bool,
}

/// The clip the decision tree picks for the given velocity and state.
pub open spec fn spec_select_animation(vx: int, vy: int, grounded: bool, climbing: bool) -> AnimationClip {
    if grounded {
        if vx < -WALK_ANIMATION_THRESHOLD || vx > WALK_ANIMATION_THRESHOLD {
            AnimationClip::Walk
        } else {
            AnimationClip::Idle
        }
    } else if climbing {
        AnimationClip::Climb
    } else if vy > 0 {
        AnimationClip::JumpUp
    } else {
        AnimationClip::JumpDown
    }
}

/// Maps (velocity, grounded, climbing) to the clip to play this tick.
///
/// Grounded entities walk when moving faster than the threshold and idle
/// otherwise; airborne climbers climb, and the climb clip freezes while the
/// climber's vertical velocity is zero; anyone else is mid-jump, rising or
/// falling by the sign of the vertical velocity.
pub fn select_animation(vx: i64, vy: i64, grounded: bool, climbing: bool) -> (choice: AnimationChoice)
    ensures
        choice.clip == spec_select_animation(vx as int, vy as int, grounded, climbing),
        choice.advance == !(!grounded && climbing && vy == 0),
{
    if grounded {
        if vx < -WALK_ANIMATION_THRESHOLD || vx > WALK_ANIMATION_THRESHOLD {
            AnimationChoice { clip: AnimationClip::Walk, advance: true }
        } else {
            AnimationChoice { clip: AnimationClip::Idle, advance: true }
        }
    } else if climbing {
        AnimationChoice { clip: AnimationClip::Climb, advance: vy != 0 }
    } else if vy > 0 {
        AnimationChoice { clip: AnimationClip::JumpUp, advance: true }
    } else {
        AnimationChoice { clip: AnimationClip::JumpDown, advance: true }
    }
}

/// The new facing after one tick: moving left beyond the threshold flips the
/// sprite, moving right beyond it unflips, and anything slower keeps the
/// previous facing.
pub fn flip_for(vx: i64, flipped: bool) -> (r: bool)
    ensures
        vx < -WALK_ANIMATION_THRESHOLD ==> r,
        vx > WALK_ANIMATION_THRESHOLD ==> !r,
        -WALK_ANIMATION_THRESHOLD <= vx <= WALK_ANIMATION_THRESHOLD ==> r == flipped,
{
    if vx < -WALK_ANIMATION_THRESHOLD {
        true
    } else if vx > WALK_ANIMATION_THRESHOLD {
        false
    } else {
        flipped
    }
}

} // verus!
