//! Tests of the fixed-point interpolation and quaternion arithmetic.

use deferred_renderer::math::{
    isqrt64, lerp_i32, quat_dot, quat_neg, quat_normalize, vec3_lerp, Quat, Vec3, QUAT_ONE,
};

#[test]
fn lerp_endpoints_and_midpoint() {
    assert_eq!(lerp_i32(0, 10000, 0, 1000), 0);
    assert_eq!(lerp_i32(0, 10000, 1000, 1000), 10000);
    assert_eq!(lerp_i32(0, 10000, 500, 1000), 5000);
    assert_eq!(lerp_i32(10000, 0, 500, 1000), 5000);
    assert_eq!(lerp_i32(-1000, 1000, 1, 4), -500);
}

#[test]
fn lerp_rounds_towards_the_start() {
    assert_eq!(lerp_i32(0, 1, 1, 3), 0);
    assert_eq!(lerp_i32(1, 0, 1, 3), 1);
    assert_eq!(lerp_i32(0, 10, 1, 3), 3);
}

#[test]
fn vec3_lerp_is_componentwise() {
    let a = Vec3 { x: 0, y: -100, z: 40 };
    let b = Vec3 { x: 10, y: 100, z: 40 };
    assert_eq!(vec3_lerp(a, b, 1, 2), Vec3 { x: 5, y: 0, z: 40 });
}

#[test]
fn isqrt_exact_values() {
    assert_eq!(isqrt64(0), 0);
    assert_eq!(isqrt64(1), 1);
    assert_eq!(isqrt64(15), 3);
    assert_eq!(isqrt64(16), 4);
    assert_eq!(isqrt64(3666020621), 60547);
    assert_eq!(isqrt64(u64::MAX), 0xffff_ffff);
}

#[test]
fn dot_sign_detects_the_long_arc() {
    let q0 = Quat { x: QUAT_ONE, y: 0, z: 0, w: 0 };
    let q1 = Quat { x: -46341, y: -46341, z: 0, w: 0 };
    assert!(quat_dot(&q0, &q1) < 0);
    assert!(quat_dot(&q0, &quat_neg(&q1)) > 0);
    assert_eq!(quat_dot(&q0, &q0), (QUAT_ONE as i128) * (QUAT_ONE as i128));
}

#[test]
fn normalize_rescales_to_unit() {
    let long = Quat { x: 2 * QUAT_ONE, y: 0, z: 0, w: 0 };
    assert_eq!(
        quat_normalize(&long),
        Quat { x: QUAT_ONE, y: 0, z: 0, w: 0 }
    );
    let zero = Quat { x: 0, y: 0, z: 0, w: 0 };
    assert_eq!(quat_normalize(&zero), zero);
}
