use anim_core::clip::AnimationClip;
use anim_core::clip::ClipAssets;
use anim_core::clip::ClipHandle;
use anim_core::curve::Interpolation;
use anim_core::curve::Keyframes;
use anim_core::curve::Quat;
use anim_core::curve::VariableCurve;
use anim_core::curve::Vec3;
use anim_core::evaluate::AnimationTarget;
use anim_core::evaluate::AnimationTargetContext;
use anim_core::evaluate::MorphWeights;
use anim_core::evaluate::Transform;
use anim_core::evaluate::animate_target;
use anim_core::evaluate::animate_targets;
use anim_core::ids::AnimationTargetId;
use anim_core::player::AnimationPlayer;
use anim_core::playback::PlayingAnimation;

fn translation_curve() -> VariableCurve {
    VariableCurve {
        keyframe_timestamps: vec![1000, 2000, 3000, 4000],
        keyframes: Keyframes::Translation(vec![
            Vec3 { x: 0, y: 0, z: 0 },
            Vec3 { x: 3000, y: 3000, z: 3000 },
            Vec3 { x: 6000, y: 6000, z: 6000 },
            Vec3 { x: 9000, y: 9000, z: 9000 },
        ]),
        interpolation: Interpolation::Linear,
    }
}

fn store_with(handle: ClipHandle, curve: VariableCurve, target: AnimationTargetId) -> ClipAssets {
    let mut clip = AnimationClip::new();
    assert!(curve.is_well_formed());
    clip.add_curve_to_target(target, curve);
    let mut clips = ClipAssets::new();
    clips.insert(handle, clip);
    clips
}

fn zero_transform_context() -> AnimationTargetContext {
    AnimationTargetContext {
        transform: Some(Transform {
            translation: Vec3 { x: 0, y: 0, z: 0 },
            rotation: Quat { x: 0, y: 0, z: 0, w: 1000 },
            scale: Vec3 { x: 1000, y: 1000, z: 1000 },
        }),
        morph_weights: None,
    }
}

#[test]
fn linear_translation_midpoint_is_interpolated() {
    // Clip duration 4.0s, timestamps [1,2,3,4]s, Translation, Linear,
    // seek time 2.5s: keyframe index 1, factor one half, result the
    // midpoint of keyframes 1 and 2.
    let handle = ClipHandle { id: 1 };
    let target = AnimationTargetId { id: 99 };
    let curve = translation_curve();
    assert_eq!(curve.find_current_keyframe(2500), Some(1));
    let clips = store_with(handle, curve, target);

    let mut anim = PlayingAnimation::new(handle);
    anim.seek_time = 2500;
    let mut context = zero_transform_context();
    anim.apply(&clips, 1000, target, &mut context);

    let translation = context.transform.unwrap().translation;
    assert_eq!(translation, Vec3 { x: 4500, y: 4500, z: 4500 });
}

#[test]
fn step_interpolation_uses_the_start_keyframe_verbatim() {
    let handle = ClipHandle { id: 1 };
    let target = AnimationTargetId { id: 99 };
    let mut curve = translation_curve();
    curve.interpolation = Interpolation::Step;
    let clips = store_with(handle, curve, target);

    let mut anim = PlayingAnimation::new(handle);
    anim.seek_time = 2999;
    let mut context = zero_transform_context();
    anim.apply(&clips, 1000, target, &mut context);

    let translation = context.transform.unwrap().translation;
    assert_eq!(translation, Vec3 { x: 3000, y: 3000, z: 3000 });
}

#[test]
fn cubic_spline_with_zero_tangents_blends_the_values() {
    // Two keyframes one second apart, zero tangents: halfway through, the
    // Hermite blend is the midpoint of the two values.
    let handle = ClipHandle { id: 1 };
    let target = AnimationTargetId { id: 7 };
    let curve = VariableCurve {
        keyframe_timestamps: vec![1000, 2000],
        keyframes: Keyframes::Translation(vec![
            // in-tangent, value, out-tangent for each keyframe
            Vec3 { x: 0, y: 0, z: 0 },
            Vec3 { x: 0, y: 0, z: 0 },
            Vec3 { x: 0, y: 0, z: 0 },
            Vec3 { x: 0, y: 0, z: 0 },
            Vec3 { x: 2000, y: 2000, z: 2000 },
            Vec3 { x: 0, y: 0, z: 0 },
        ]),
        interpolation: Interpolation::CubicSpline,
    };
    let clips = store_with(handle, curve, target);

    let mut anim = PlayingAnimation::new(handle);
    anim.seek_time = 1500;
    let mut context = zero_transform_context();
    anim.apply(&clips, 1000, target, &mut context);

    let translation = context.transform.unwrap().translation;
    assert_eq!(translation, Vec3 { x: 1000, y: 1000, z: 1000 });
}

#[test]
fn rotation_blend_takes_the_shortest_path() {
    // The second rotation keyframe has a negative dot product with the
    // first, so it is negated before interpolation.
    let handle = ClipHandle { id: 1 };
    let target = AnimationTargetId { id: 7 };
    let curve = VariableCurve {
        keyframe_timestamps: vec![0, 1000],
        keyframes: Keyframes::Rotation(vec![
            Quat { x: 0, y: 0, z: 0, w: 1000 },
            Quat { x: 0, y: 0, z: 0, w: -1000 },
        ]),
        interpolation: Interpolation::Linear,
    };
    let clips = store_with(handle, curve, target);

    let mut anim = PlayingAnimation::new(handle);
    anim.seek_time = 500;
    let mut context = zero_transform_context();
    anim.apply(&clips, 1000, target, &mut context);

    // With the sign flip both keyframes agree, so the sampled rotation is
    // the first keyframe, not a degenerate zero quaternion.
    let rotation = context.transform.unwrap().rotation;
    assert_eq!(rotation, Quat { x: 0, y: 0, z: 0, w: 1000 });
}

#[test]
fn morph_weights_are_interpolated_per_channel() {
    let handle = ClipHandle { id: 1 };
    let target = AnimationTargetId { id: 7 };
    let curve = VariableCurve {
        keyframe_timestamps: vec![1000, 2000],
        // Two channels: keyframe 0 is [0, 0], keyframe 1 is [1000, 2000].
        keyframes: Keyframes::Weights(vec![0, 0, 1000, 2000]),
        interpolation: Interpolation::Linear,
    };
    let clips = store_with(handle, curve, target);

    let mut anim = PlayingAnimation::new(handle);
    anim.seek_time = 1500;
    let mut context = AnimationTargetContext {
        transform: None,
        morph_weights: Some(MorphWeights { weights: vec![0, 0] }),
    };
    anim.apply(&clips, 1000, target, &mut context);

    assert_eq!(context.morph_weights.unwrap().weights, vec![500, 1000]);
}

#[test]
fn half_weight_blends_toward_the_sample() {
    let handle = ClipHandle { id: 1 };
    let target = AnimationTargetId { id: 99 };
    let clips = store_with(handle, translation_curve(), target);

    let mut anim = PlayingAnimation::new(handle);
    anim.seek_time = 2500;
    let mut context = zero_transform_context();
    // Weight one half: the output moves halfway from 0 toward 4500.
    anim.apply(&clips, 500, target, &mut context);

    let translation = context.transform.unwrap().translation;
    assert_eq!(translation, Vec3 { x: 2250, y: 2250, z: 2250 });
}

#[test]
fn single_keyframe_curves_apply_directly() {
    let handle = ClipHandle { id: 1 };
    let target = AnimationTargetId { id: 99 };
    let curve = VariableCurve {
        keyframe_timestamps: vec![1000],
        keyframes: Keyframes::Scale(vec![Vec3 { x: 3000, y: 3000, z: 3000 }]),
        interpolation: Interpolation::Linear,
    };
    let clips = store_with(handle, curve, target);

    let mut anim = PlayingAnimation::new(handle);
    // Even a seek time before the timestamp applies a single keyframe.
    anim.seek_time = 0;
    let mut context = zero_transform_context();
    anim.apply(&clips, 1000, target, &mut context);
    assert_eq!(context.transform.unwrap().scale, Vec3 { x: 3000, y: 3000, z: 3000 });
}

#[test]
fn unloaded_clips_and_unstarted_curves_contribute_nothing() {
    let handle = ClipHandle { id: 1 };
    let target = AnimationTargetId { id: 99 };

    // Clip not in the store: the tick contributes nothing.
    let empty_store = ClipAssets::new();
    let mut anim = PlayingAnimation::new(handle);
    anim.seek_time = 2500;
    let mut context = zero_transform_context();
    anim.apply(&empty_store, 1000, target, &mut context);
    assert_eq!(context.transform.unwrap(), zero_transform_context().transform.unwrap());

    // Seek time before the first keyframe: the curve contributes nothing.
    let clips = store_with(handle, translation_curve(), target);
    anim.seek_time = 500;
    let mut context = zero_transform_context();
    anim.apply(&clips, 1000, target, &mut context);
    assert_eq!(context.transform.unwrap(), zero_transform_context().transform.unwrap());
}

#[test]
fn curves_for_missing_fields_are_skipped() {
    let handle = ClipHandle { id: 1 };
    let target = AnimationTargetId { id: 99 };
    let clips = store_with(handle, translation_curve(), target);
    let mut anim = PlayingAnimation::new(handle);
    anim.seek_time = 2500;
    // The target has no transform: the translation curve is skipped.
    let mut context = AnimationTargetContext {
        transform: None,
        morph_weights: Some(MorphWeights { weights: vec![11, 22] }),
    };
    anim.apply(&clips, 1000, target, &mut context);
    assert!(context.transform.is_none());
    assert_eq!(context.morph_weights.unwrap().weights, vec![11, 22]);
}

#[test]
fn transitions_blend_after_the_primary_animation() {
    // Clip A holds translation 9000, clip B holds translation 1000, both
    // as single keyframes. After a cross-fade from A to B advances to
    // weight one half, the output is B's value pulled halfway back
    // toward A's.
    let target = AnimationTargetId { id: 5 };
    let handle_a = ClipHandle { id: 1 };
    let handle_b = ClipHandle { id: 2 };
    let curve_a = VariableCurve {
        keyframe_timestamps: vec![1000],
        keyframes: Keyframes::Translation(vec![Vec3 { x: 9000, y: 9000, z: 9000 }]),
        interpolation: Interpolation::Linear,
    };
    let curve_b = VariableCurve {
        keyframe_timestamps: vec![1000],
        keyframes: Keyframes::Translation(vec![Vec3 { x: 1000, y: 1000, z: 1000 }]),
        interpolation: Interpolation::Linear,
    };
    let mut clip_a = AnimationClip::new();
    clip_a.add_curve_to_target(target, curve_a);
    let mut clip_b = AnimationClip::new();
    clip_b.add_curve_to_target(target, curve_b);
    let mut clips = ClipAssets::new();
    clips.insert(handle_a, clip_a);
    clips.insert(handle_b, clip_b);

    let mut player = AnimationPlayer::new();
    player.start(handle_a);
    player.start_with_transition(handle_b, 1000);
    player.advance(500, &clips);
    assert_eq!(player.transitions()[0].current_weight, 500);

    let mut context = zero_transform_context();
    animate_target(&player, &clips, target, &mut context);
    // Primary (B, full weight) writes 1000; the fading A-state then blends
    // half the way from 1000 toward 9000.
    let translation = context.transform.unwrap().translation;
    assert_eq!(translation, Vec3 { x: 5000, y: 5000, z: 5000 });
}

#[test]
fn animate_targets_skips_targets_with_missing_players() {
    let target_id = AnimationTargetId { id: 5 };
    let handle = ClipHandle { id: 1 };
    let clips = store_with(handle, translation_curve(), target_id);
    let mut player = AnimationPlayer::new();
    player.start(handle);
    player.seek_to(2500);
    let players = vec![player];

    let mut targets = vec![
        (AnimationTarget { id: target_id, player: 0 }, zero_transform_context()),
        (AnimationTarget { id: target_id, player: 3 }, zero_transform_context()),
    ];
    animate_targets(&clips, &players, &mut targets);
    assert_eq!(
        targets[0].1.transform.unwrap().translation,
        Vec3 { x: 4500, y: 4500, z: 4500 },
    );
    // The second target names a player index that does not exist: skipped.
    assert_eq!(
        targets[1].1.transform.unwrap().translation,
        Vec3 { x: 0, y: 0, z: 0 },
    );
}

#[test]
fn remap_player_rewrites_only_the_owning_player() {
    let mut target = AnimationTarget { id: AnimationTargetId { id: 5 }, player: 0 };
    target.remap_player(9);
    assert_eq!(target.player, 9);
    assert_eq!(target.id, AnimationTargetId { id: 5 });
}
