use anim_core::clip::AnimationClip;
use anim_core::clip::ClipAssets;
use anim_core::clip::ClipHandle;
use anim_core::player::AnimationPlayer;
use anim_core::player::advance_animations;
use anim_core::playback::RepeatAnimation;

#[test]
fn start_with_transition_stacks_a_fading_copy_of_the_old_animation() {
    let clip_a = ClipHandle { id: 1 };
    let clip_b = ClipHandle { id: 2 };
    let mut player = AnimationPlayer::new();
    player.start(clip_a);
    assert_eq!(player.animation_clip(), clip_a);
    assert_eq!(player.transitions().len(), 0);

    // Cross-fade into clip B over one second (1000 ticks).
    player.start_with_transition(clip_b, 1000);

    // Immediately after: B is active, exactly one transition wraps the old
    // A-state with full weight.
    assert_eq!(player.animation_clip(), clip_b);
    assert_eq!(player.transitions().len(), 1);
    assert_eq!(player.transitions()[0].current_weight, 1000);
    assert_eq!(player.transitions()[0].animation.animation_clip, clip_a);

    // After half a second of advance the weight has fallen to one half.
    let clips = ClipAssets::new();
    player.advance(500, &clips);
    assert_eq!(player.transitions().len(), 1);
    assert_eq!(player.transitions()[0].current_weight, 500);

    // After a full second in total, the transition has expired.
    player.advance(500, &clips);
    assert_eq!(player.transitions().len(), 0);
}

#[test]
fn start_discards_all_transitions() {
    let mut player = AnimationPlayer::new();
    player.start_with_transition(ClipHandle { id: 2 }, 1000);
    player.start_with_transition(ClipHandle { id: 3 }, 1000);
    assert_eq!(player.transitions().len(), 2);
    player.start(ClipHandle { id: 4 });
    assert_eq!(player.transitions().len(), 0);
    assert_eq!(player.animation_clip(), ClipHandle { id: 4 });
}

#[test]
fn play_is_a_no_op_for_the_playing_clip_unless_paused() {
    let clip = ClipHandle { id: 5 };
    let mut player = AnimationPlayer::new();
    player.start(clip);
    player.set_speed(250);
    // Already playing this clip: nothing resets.
    player.play(clip);
    assert_eq!(player.speed(), 250);
    // Paused: play restarts even the playing clip.
    player.pause();
    assert!(player.is_paused());
    player.play(clip);
    assert_eq!(player.speed(), 1000);
    assert!(player.is_paused());
}

#[test]
fn play_with_transition_restarts_only_other_clips() {
    let clip_a = ClipHandle { id: 1 };
    let clip_b = ClipHandle { id: 2 };
    let mut player = AnimationPlayer::new();
    player.start(clip_a);
    player.play_with_transition(clip_a, 500);
    assert_eq!(player.transitions().len(), 0);
    player.play_with_transition(clip_b, 500);
    assert_eq!(player.animation_clip(), clip_b);
    assert_eq!(player.transitions().len(), 1);
}

#[test]
fn pause_freezes_all_time_advance() {
    let handle = ClipHandle { id: 1 };
    let mut clip = AnimationClip::new();
    // Give the clip a nonzero duration through an added curve.
    clip.add_curve_to_target(
        anim_core::ids::AnimationTargetId { id: 42 },
        anim_core::curve::VariableCurve {
            keyframe_timestamps: vec![0, 4000],
            keyframes: anim_core::curve::Keyframes::Translation(vec![
                anim_core::curve::Vec3 { x: 0, y: 0, z: 0 },
                anim_core::curve::Vec3 { x: 1, y: 1, z: 1 },
            ]),
            interpolation: anim_core::curve::Interpolation::Linear,
        },
    );
    let mut clips = ClipAssets::new();
    clips.insert(handle, clip);

    let mut player = AnimationPlayer::new();
    player.start(handle);
    player.start_with_transition(handle, 1000);
    player.pause();
    player.advance(500, &clips);
    assert_eq!(player.seek_time(), 0);
    assert_eq!(player.elapsed(), 0);
    assert_eq!(player.transitions()[0].current_weight, 1000);
    player.resume();
    player.advance(500, &clips);
    assert_eq!(player.seek_time(), 500);
    assert_eq!(player.elapsed(), 500);
    assert_eq!(player.transitions()[0].current_weight, 500);
}

#[test]
fn player_getters_and_setters_round_trip() {
    let mut player = AnimationPlayer::new();
    assert!(!player.is_paused());
    assert!(!player.is_playback_reversed());
    player.set_speed(-300);
    assert!(player.is_playback_reversed());
    assert_eq!(player.speed(), -300);
    player.set_repeat(RepeatAnimation::Count(4));
    assert_eq!(player.repeat_mode(), RepeatAnimation::Count(4));
    player.repeat();
    assert_eq!(player.repeat_mode(), RepeatAnimation::Forever);
    player.seek_to(777);
    assert_eq!(player.seek_time(), 777);
    assert_eq!(player.completions(), 0);
    assert!(!player.is_finished());
    assert!(player.is_playing_clip(&ClipHandle { id: 0 }));
    player.replay();
    assert_eq!(player.seek_time(), 0);
}

#[test]
fn advance_animations_moves_every_unpaused_player() {
    let handle = ClipHandle { id: 1 };
    let mut clip = AnimationClip::new();
    clip.add_curve_to_target(
        anim_core::ids::AnimationTargetId { id: 42 },
        anim_core::curve::VariableCurve {
            keyframe_timestamps: vec![0, 4000],
            keyframes: anim_core::curve::Keyframes::Translation(vec![
                anim_core::curve::Vec3 { x: 0, y: 0, z: 0 },
                anim_core::curve::Vec3 { x: 1, y: 1, z: 1 },
            ]),
            interpolation: anim_core::curve::Interpolation::Linear,
        },
    );
    let mut clips = ClipAssets::new();
    clips.insert(handle, clip);

    let mut running = AnimationPlayer::new();
    running.start(handle);
    let mut paused = AnimationPlayer::new();
    paused.start(handle);
    paused.pause();

    let mut players = vec![running, paused];
    advance_animations(&mut players, &clips, 250);
    assert_eq!(players[0].seek_time(), 250);
    assert_eq!(players[1].seek_time(), 0);
}
