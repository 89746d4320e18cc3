use platformer_core::animation::AnimationClip;
use platformer_core::animation::flip_for;
use platformer_core::animation::select_animation;

#[test]
fn grounded_entities_idle_or_walk() {
    assert_eq!(select_animation(0, 0, true, false).clip, AnimationClip::Idle);
    assert_eq!(select_animation(15, 0, true, false).clip, AnimationClip::Idle);
    assert_eq!(select_animation(-15, 0, true, false).clip, AnimationClip::Idle);
    assert_eq!(select_animation(16, 0, true, false).clip, AnimationClip::Walk);
    assert_eq!(select_animation(-16, 0, true, false).clip, AnimationClip::Walk);
    // Grounded wins over climbing in the clip choice.
    assert_eq!(select_animation(40, 0, true, true).clip, AnimationClip::Walk);
}

#[test]
fn airborne_climbers_climb_and_freeze_when_still() {
    let moving = select_animation(0, 80, false, true);
    assert_eq!(moving.clip, AnimationClip::Climb);
    assert!(moving.advance);
    let hanging = select_animation(0, 0, false, true);
    assert_eq!(hanging.clip, AnimationClip::Climb);
    assert!(!hanging.advance);
}

#[test]
fn jumps_split_by_vertical_sign() {
    assert_eq!(select_animation(0, 10, false, false).clip, AnimationClip::JumpUp);
    assert_eq!(select_animation(0, 0, false, false).clip, AnimationClip::JumpDown);
    assert_eq!(select_animation(0, -10, false, false).clip, AnimationClip::JumpDown);
}

#[test]
fn facing_flips_only_beyond_the_threshold() {
    assert!(flip_for(-16, false));
    assert!(!flip_for(16, true));
    // Within the threshold the previous facing is kept.
    assert!(flip_for(-15, true));
    assert!(!flip_for(15, false));
    assert!(flip_for(0, true));
    assert!(!flip_for(0, false));
}
