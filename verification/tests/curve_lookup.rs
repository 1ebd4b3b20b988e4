use anim_core::curve::Interpolation;
use anim_core::curve::Keyframes;
use anim_core::curve::VariableCurve;
use anim_core::curve::Vec3;

fn test_variable_curve() -> VariableCurve {
    let keyframe_timestamps: Vec<i64> = vec![1000, 2000, 3000, 4000];
    let keyframes = vec![
        Vec3 { x: 0, y: 0, z: 0 },
        Vec3 { x: 3000, y: 3000, z: 3000 },
        Vec3 { x: 6000, y: 6000, z: 6000 },
        Vec3 { x: 9000, y: 9000, z: 9000 },
    ];
    let interpolation = Interpolation::Linear;

    let variable_curve = VariableCurve {
        keyframe_timestamps,
        keyframes: Keyframes::Translation(keyframes),
        interpolation,
    };

    assert!(variable_curve.keyframe_timestamps.len() == variable_curve.keyframes.len());
    assert!(variable_curve.is_well_formed());

    let mut maybe_last_timestamp = None;
    for current_timestamp in &variable_curve.keyframe_timestamps {
        if let Some(last_timestamp) = maybe_last_timestamp {
            assert!(current_timestamp > last_timestamp);
        }
        maybe_last_timestamp = Some(current_timestamp);
    }

    variable_curve
}

#[test]
fn find_current_keyframe_is_in_bounds() {
    let curve = test_variable_curve();
    let min_time = *curve.keyframe_timestamps.first().unwrap();
    // We will always get none at times at or past the second last keyframe
    let second_last_keyframe = curve.keyframe_timestamps.len() - 2;
    let max_time = curve.keyframe_timestamps[second_last_keyframe];
    let elapsed_time = max_time - min_time;

    let n_keyframes = curve.keyframe_timestamps.len();
    let n_test_points: i64 = 5;

    for i in 0..=n_test_points {
        // Get a point a fraction i / n_test_points of the way through
        let seek_time = min_time + i * elapsed_time / n_test_points;
        assert!(seek_time >= min_time);
        assert!(seek_time <= max_time);

        let maybe_current_keyframe = curve.find_current_keyframe(seek_time);
        assert!(
            maybe_current_keyframe.is_some(),
            "Seek time: {seek_time}, Min time: {min_time}, Max time: {max_time}"
        );

        // We cannot return the last keyframe,
        // because we want to interpolate between the current and next keyframe
        assert!(maybe_current_keyframe.unwrap() < n_keyframes);
    }
}

#[test]
fn find_current_keyframe_returns_none_on_unstarted_animations() {
    let curve = test_variable_curve();
    let min_time = *curve.keyframe_timestamps.first().unwrap();
    let seek_time = 0;
    assert!(seek_time < min_time);

    let maybe_keyframe = curve.find_current_keyframe(seek_time);
    assert!(
        maybe_keyframe.is_none(),
        "Seek time: {seek_time}, Minimum time: {min_time}"
    );
}

#[test]
fn find_current_keyframe_returns_none_on_finished_animation() {
    let curve = test_variable_curve();
    let max_time = *curve.keyframe_timestamps.last().unwrap();

    assert!(max_time < i64::MAX);
    let maybe_keyframe = curve.find_current_keyframe(i64::MAX);
    assert!(maybe_keyframe.is_none());

    let maybe_keyframe = curve.find_current_keyframe(max_time);
    assert!(maybe_keyframe.is_none());
}

#[test]
fn second_last_keyframe_is_found_correctly() {
    let curve = test_variable_curve();

    // Exact time match
    let second_last_keyframe = curve.keyframe_timestamps.len() - 2;
    let second_last_time = curve.keyframe_timestamps[second_last_keyframe];
    let maybe_keyframe = curve.find_current_keyframe(second_last_time);
    assert!(maybe_keyframe.unwrap() == second_last_keyframe);

    // Inexact match, between the last and second last frames
    let seek_time = second_last_time + 1;
    let last_time = curve.keyframe_timestamps[second_last_keyframe + 1];
    assert!(seek_time < last_time);

    let maybe_keyframe = curve.find_current_keyframe(seek_time);
    assert!(maybe_keyframe.unwrap() == second_last_keyframe);
}

#[test]
fn exact_keyframe_matches_are_found_correctly() {
    let curve = test_variable_curve();
    let second_last_keyframe = curve.keyframes.len() - 2;

    for i in 0..=second_last_keyframe {
        let seek_time = curve.keyframe_timestamps[i];

        let keyframe = curve.find_current_keyframe(seek_time).unwrap();
        assert!(keyframe == i);
    }
}

#[test]
fn exact_and_inexact_keyframes_correspond() {
    let curve = test_variable_curve();

    let second_last_keyframe = curve.keyframes.len() - 2;

    for i in 0..=second_last_keyframe {
        let seek_time = curve.keyframe_timestamps[i];

        let exact_keyframe = curve.find_current_keyframe(seek_time).unwrap();

        let inexact_seek_time = seek_time + 1;
        let final_time = *curve.keyframe_timestamps.last().unwrap();
        assert!(inexact_seek_time < final_time);

        let inexact_keyframe = curve.find_current_keyframe(inexact_seek_time).unwrap();

        assert!(exact_keyframe == inexact_keyframe);
    }
}

#[test]
fn every_seek_time_in_an_interval_selects_that_interval() {
    let curve = test_variable_curve();
    for i in 0..curve.keyframe_timestamps.len() - 1 {
        let start = curve.keyframe_timestamps[i];
        let end = curve.keyframe_timestamps[i + 1];
        let mut seek_time = start;
        while seek_time < end {
            assert_eq!(curve.find_current_keyframe(seek_time), Some(i));
            seek_time += 250;
        }
    }
}

#[test]
fn empty_and_single_keyframe_curves_find_nothing() {
    let single = VariableCurve {
        keyframe_timestamps: vec![1000],
        keyframes: Keyframes::Translation(vec![Vec3 { x: 1, y: 2, z: 3 }]),
        interpolation: Interpolation::Step,
    };
    assert!(single.is_well_formed());
    assert!(single.find_current_keyframe(1000).is_none());
    assert!(single.find_current_keyframe(0).is_none());
    assert!(single.find_current_keyframe(5000).is_none());
    assert!(!single.keyframes.is_empty());
    assert_eq!(single.keyframes.len(), 1);
}
