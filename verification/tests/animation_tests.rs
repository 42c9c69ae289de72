//! Tests of the keyframe animation sampler on concrete tracks.

use deferred_renderer::animation::{Animation, Keyframe, Transformation};
use deferred_renderer::math::{Quat, Vec3};

fn translate_track() -> Animation {
    // Two translation keys: 0 -> (0,0,0), 1000 -> (10000,0,0), period 2000.
    Animation::new(
        0,
        2000,
        vec![
            Keyframe { time: 0, value: Transformation::Translate(Vec3 { x: 0, y: 0, z: 0 }) },
            Keyframe {
                time: 1000,
                value: Transformation::Translate(Vec3 { x: 10000, y: 0, z: 0 }),
            },
        ],
    )
}

#[test]
fn exact_key_fidelity() {
    let track = translate_track();
    assert_eq!(
        track.get(1000),
        Some(Transformation::Translate(Vec3 { x: 10000, y: 0, z: 0 }))
    );
    assert_eq!(
        track.get(0),
        Some(Transformation::Translate(Vec3 { x: 0, y: 0, z: 0 }))
    );
}

#[test]
fn linear_midpoint() {
    let track = translate_track();
    assert_eq!(
        track.get(500),
        Some(Transformation::Translate(Vec3 { x: 5000, y: 0, z: 0 }))
    );
}

#[test]
fn quarter_point() {
    let track = translate_track();
    assert_eq!(
        track.get(250),
        Some(Transformation::Translate(Vec3 { x: 2500, y: 0, z: 0 }))
    );
}

#[test]
fn periodicity() {
    let track = translate_track();
    for t in [0u64, 1, 250, 500, 999, 1000, 1500, 1999] {
        for k in [1u64, 2, 3, 1000] {
            assert_eq!(track.get(t), track.get(t + k * 2000));
        }
    }
}

#[test]
fn wrap_to_start_before_first_key() {
    // First key sits at 100; local times before it fall back to it.
    let track = Animation::new(
        3,
        200,
        vec![
            Keyframe { time: 100, value: Transformation::Scale(Vec3 { x: 7, y: 8, z: 9 }) },
            Keyframe { time: 150, value: Transformation::Scale(Vec3 { x: 17, y: 18, z: 19 }) },
        ],
    );
    assert_eq!(
        track.get(40),
        Some(Transformation::Scale(Vec3 { x: 7, y: 8, z: 9 }))
    );
}

#[test]
fn past_last_key_holds_the_last_pose() {
    // Local time beyond the last key holds that key's pose until the
    // period wraps.
    let track = translate_track();
    assert_eq!(
        track.get(1500),
        Some(Transformation::Translate(Vec3 { x: 10000, y: 0, z: 0 }))
    );
    assert_eq!(
        track.get(3500),
        Some(Transformation::Translate(Vec3 { x: 10000, y: 0, z: 0 }))
    );
    assert_eq!(
        track.get(2000),
        Some(Transformation::Translate(Vec3 { x: 0, y: 0, z: 0 }))
    );
}

#[test]
fn single_key_track_is_constant() {
    // One key late in the period: wrap-to-start before it, the held pose
    // after it — the same value either way.
    let track = Animation::new(
        1,
        2000,
        vec![Keyframe { time: 1999, value: Transformation::Translate(Vec3 { x: 4, y: 5, z: 6 }) }],
    );
    for t in [0u64, 1, 700, 1999, 2000, 2001, 123456] {
        assert_eq!(
            track.get(t),
            Some(Transformation::Translate(Vec3 { x: 4, y: 5, z: 6 }))
        );
    }
}

#[test]
fn single_key_early_in_period_is_still_constant() {
    // A key at 0 with period 2000: local times past the key hold its pose,
    // so the track is constant over the whole period.
    let track = Animation::new(
        1,
        2000,
        vec![Keyframe { time: 0, value: Transformation::Translate(Vec3 { x: 4, y: 5, z: 6 }) }],
    );
    for t in [0u64, 1, 1999, 2000, 54321] {
        assert_eq!(
            track.get(t),
            Some(Transformation::Translate(Vec3 { x: 4, y: 5, z: 6 }))
        );
    }
}

#[test]
fn empty_track_never_samples() {
    let track = Animation::new(9, 50, vec![]);
    for t in [0u64, 1, 49, 50, 1000] {
        assert_eq!(track.get(t), None);
    }
}

#[test]
fn construction_sorts_and_overwrites_duplicates() {
    // Samples arrive unordered and with a duplicate time; the later
    // duplicate wins, as collecting into an ordered map does.
    let track = Animation::new(
        2,
        100,
        vec![
            Keyframe { time: 50, value: Transformation::Scale(Vec3 { x: 1, y: 1, z: 1 }) },
            Keyframe { time: 10, value: Transformation::Scale(Vec3 { x: 2, y: 2, z: 2 }) },
            Keyframe { time: 50, value: Transformation::Scale(Vec3 { x: 3, y: 3, z: 3 }) },
        ],
    );
    assert_eq!(track.keys.len(), 2);
    assert_eq!(track.keys[0].time, 10);
    assert_eq!(track.keys[1].time, 50);
    assert_eq!(
        track.get(50),
        Some(Transformation::Scale(Vec3 { x: 3, y: 3, z: 3 }))
    );
}

#[test]
fn rotation_shortest_arc_midpoint() {
    // Keys whose dot product is negative: the sampler negates the far key
    // before interpolating, then renormalizes.
    let q0 = Quat { x: 65536, y: 0, z: 0, w: 0 };
    let q1 = Quat { x: -46341, y: -46341, z: 0, w: 0 };
    let track = Animation::new(
        4,
        2,
        vec![
            Keyframe { time: 0, value: Transformation::Rotate(q0) },
            Keyframe { time: 2, value: Transformation::Rotate(q1) },
        ],
    );
    let got = track.get(1);
    let expected = Quat { x: 60548, y: 25079, z: 0, w: 0 };
    assert_eq!(got, Some(Transformation::Rotate(expected)));
    // The arc traveled stays within a half turn: the result lies on the
    // near side of the first key.
    let dot = (q0.x as i64) * (expected.x as i64)
        + (q0.y as i64) * (expected.y as i64)
        + (q0.z as i64) * (expected.z as i64)
        + (q0.w as i64) * (expected.w as i64);
    assert!(dot > 0);
}

#[test]
fn rotation_exact_key_is_verbatim() {
    // An exact key hit returns the stored quaternion with no drift.
    let q0 = Quat { x: 65536, y: 0, z: 0, w: 0 };
    let q1 = Quat { x: 0, y: 65536, z: 0, w: 0 };
    let track = Animation::new(
        4,
        20,
        vec![
            Keyframe { time: 0, value: Transformation::Rotate(q0) },
            Keyframe { time: 10, value: Transformation::Rotate(q1) },
        ],
    );
    assert_eq!(track.get(10), Some(Transformation::Rotate(q1)));
    assert_eq!(track.get(20), Some(Transformation::Rotate(q0)));
}

#[test]
fn target_and_duration_are_kept() {
    let track = translate_track();
    assert_eq!(track.target, 0);
    assert_eq!(track.duration, 2000);
}
