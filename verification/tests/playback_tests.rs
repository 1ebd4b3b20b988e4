use anim_core::clip::ClipHandle;
use anim_core::playback::PlayingAnimation;
use anim_core::playback::RepeatAnimation;

#[test]
fn never_policy_finishes_after_one_pass_and_freezes() {
    let mut anim = PlayingAnimation::new(ClipHandle { id: 7 });
    assert!(!anim.is_finished());
    assert_eq!(anim.speed, 1000);

    // One full forward pass: seek overshoots the duration.
    anim.update(1500, 1000);
    assert_eq!(anim.completions, 1);
    assert!(anim.is_finished());
    // The just-finished animation holds its overshoot value.
    assert_eq!(anim.seek_time, 1500);
    assert_eq!(anim.elapsed, 1500);

    // Further updates are no-ops: seek time and elapsed stay frozen.
    anim.update(500, 1000);
    anim.update(900, 1000);
    assert_eq!(anim.seek_time, 1500);
    assert_eq!(anim.elapsed, 1500);
    assert_eq!(anim.completions, 1);
}

#[test]
fn count_policy_increments_once_per_pass_and_finishes_exactly_at_n() {
    let mut anim = PlayingAnimation::new(ClipHandle { id: 1 });
    anim.repeat = RepeatAnimation::Count(2);

    // A partial pass does not change completions.
    anim.update(400, 1000);
    assert_eq!(anim.completions, 0);
    assert_eq!(anim.seek_time, 400);
    assert!(!anim.is_finished());

    // First full pass: exactly one completion, not finished, seek wraps.
    anim.update(600, 1000);
    assert_eq!(anim.completions, 1);
    assert!(!anim.is_finished());
    assert_eq!(anim.seek_time, 0);

    // Second full pass: finished exactly when completions reaches 2.
    anim.update(1000, 1000);
    assert_eq!(anim.completions, 2);
    assert!(anim.is_finished());
}

#[test]
fn forever_policy_never_finishes() {
    let mut anim = PlayingAnimation::new(ClipHandle { id: 1 });
    anim.repeat = RepeatAnimation::Forever;
    for _ in 0..10 {
        anim.update(700, 1000);
        assert!(!anim.is_finished());
    }
    assert_eq!(anim.completions, 7);
    assert!(anim.seek_time >= 0 && anim.seek_time < 1000);
}

#[test]
fn negative_speed_decreases_seek_time_and_wraps_by_adding_duration() {
    let mut anim = PlayingAnimation::new(ClipHandle { id: 1 });
    anim.repeat = RepeatAnimation::Forever;
    anim.speed = -1000;
    anim.seek_time = 800;

    // Seek time decreases while no wrap happens.
    anim.update(300, 1000);
    assert_eq!(anim.seek_time, 500);
    assert_eq!(anim.completions, 0);

    // A full reverse pass crosses below zero: one completion, and the
    // wrap adds the clip duration.
    anim.update(700, 1000);
    assert_eq!(anim.completions, 1);
    assert_eq!(anim.seek_time, 800);
}

#[test]
fn reverse_pass_with_never_policy_holds_overshoot() {
    let mut anim = PlayingAnimation::new(ClipHandle { id: 1 });
    anim.speed = -1000;
    anim.seek_time = 100;

    anim.update(400, 1000);
    assert_eq!(anim.completions, 1);
    assert!(anim.is_finished());
    // Finished on the pass: the negative overshoot is held, not wrapped.
    assert_eq!(anim.seek_time, -300);
}

#[test]
fn replay_resets_progress_but_keeps_speed_repeat_and_clip() {
    let mut anim = PlayingAnimation::new(ClipHandle { id: 9 });
    anim.repeat = RepeatAnimation::Count(3);
    anim.speed = -2000;
    anim.update(500, 1000);
    anim.replay();
    assert_eq!(anim.completions, 0);
    assert_eq!(anim.elapsed, 0);
    assert_eq!(anim.seek_time, 0);
    assert_eq!(anim.speed, -2000);
    assert_eq!(anim.repeat, RepeatAnimation::Count(3));
    assert_eq!(anim.animation_clip, ClipHandle { id: 9 });
}

#[test]
fn fractional_speed_scales_the_seek_step() {
    let mut anim = PlayingAnimation::new(ClipHandle { id: 1 });
    anim.speed = 500;
    anim.update(600, 1000);
    // 600 ticks at speed 0.5 move the cursor 300 ticks.
    assert_eq!(anim.seek_time, 300);
    assert_eq!(anim.elapsed, 600);
}
