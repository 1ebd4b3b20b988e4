use anim_core::clip::AnimationClip;
use anim_core::clip::ClipHandle;
use anim_core::curve::Interpolation;
use anim_core::curve::Keyframes;
use anim_core::curve::VariableCurve;
use anim_core::curve::Vec3;
use anim_core::ids::AnimationTargetId;

fn name(n: &str) -> Vec<u8> {
    n.as_bytes().to_vec()
}

#[test]
fn target_ids_are_deterministic_and_order_sensitive() {
    // The same path computed twice yields bit-identical output.
    let first = AnimationTargetId::from_names(&vec![name("Hips")]);
    let second = AnimationTargetId::from_names(&vec![name("Hips")]);
    assert_eq!(first, second);
    assert_eq!(first.id, second.id);

    // Different paths, and different orders of the same names, yield
    // different identifiers.
    let hips_chest = AnimationTargetId::from_names(&vec![name("Hips"), name("Chest")]);
    let chest_hips = AnimationTargetId::from_names(&vec![name("Chest"), name("Hips")]);
    let chest = AnimationTargetId::from_names(&vec![name("Chest")]);
    assert_ne!(hips_chest, chest_hips);
    assert_ne!(chest_hips, chest);
    assert_ne!(hips_chest, chest);
    assert_ne!(first, chest);
}

#[test]
fn from_name_matches_the_singleton_path() {
    let by_name = AnimationTargetId::from_name(&name("Hips"));
    let by_path = AnimationTargetId::from_names(&vec![name("Hips")]);
    assert_eq!(by_name, by_path);
}

#[test]
fn target_ids_carry_the_name_based_uuid_version_and_variant() {
    let id = AnimationTargetId::from_name(&name("Hips")).id;
    // Version bits (the four high bits of byte 6) read 5.
    assert_eq!((id >> 76) & 0xf, 5);
    // Variant bits (the two high bits of byte 8) read binary 10.
    assert_eq!((id >> 62) & 0x3, 0b10);
}

fn curve_ending_at(last: i64) -> VariableCurve {
    VariableCurve {
        keyframe_timestamps: vec![last / 2, last],
        keyframes: Keyframes::Translation(vec![
            Vec3 { x: 0, y: 0, z: 0 },
            Vec3 { x: 1, y: 1, z: 1 },
        ]),
        interpolation: Interpolation::Linear,
    }
}

#[test]
fn adding_curves_never_decreases_duration() {
    let target = AnimationTargetId { id: 1 };
    let mut clip = AnimationClip::new();
    assert_eq!(clip.duration(), 0);

    clip.add_curve_to_target(target, curve_ending_at(4000));
    assert_eq!(clip.duration(), 4000);

    // A shorter curve leaves the duration alone.
    clip.add_curve_to_target(target, curve_ending_at(2000));
    assert_eq!(clip.duration(), 4000);

    // A longer curve extends it.
    clip.add_curve_to_target(AnimationTargetId { id: 2 }, curve_ending_at(6000));
    assert_eq!(clip.duration(), 6000);

    // The duration stays at least the last timestamp of every added curve.
    assert!(clip.duration() >= 4000);
    assert!(clip.duration() >= 2000);
    assert!(clip.duration() >= 6000);
}

#[test]
fn curves_for_target_finds_exactly_the_added_curves() {
    let target_a = AnimationTargetId { id: 1 };
    let target_b = AnimationTargetId { id: 2 };
    let mut clip = AnimationClip::new();
    clip.add_curve_to_target(target_a, curve_ending_at(4000));
    clip.add_curve_to_target(target_a, curve_ending_at(2000));

    let curves = clip.curves_for_target(target_a).unwrap();
    assert_eq!(curves.len(), 2);
    assert_eq!(curves[0].keyframe_timestamps, vec![2000, 4000]);
    assert_eq!(curves[1].keyframe_timestamps, vec![1000, 2000]);
    assert!(clip.curves_for_target(target_b).is_none());
    assert_eq!(clip.curves().targets_len(), 1);
}

#[test]
fn empty_curves_leave_duration_at_zero() {
    let mut clip = AnimationClip::new();
    clip.add_curve_to_target(
        AnimationTargetId { id: 1 },
        VariableCurve {
            keyframe_timestamps: vec![],
            keyframes: Keyframes::Translation(vec![]),
            interpolation: Interpolation::Linear,
        },
    );
    assert_eq!(clip.duration(), 0);
}

#[test]
fn default_clip_handle_names_key_zero() {
    assert_eq!(ClipHandle::default(), ClipHandle { id: 0 });
}
