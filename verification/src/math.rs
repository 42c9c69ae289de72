//! Fixed-point vector and quaternion arithmetic for the animation sampler.
//!
//! Vector and quaternion components are 32-bit fixed-point values; the
//! scale is the caller's choice for vectors, while quaternions are
//! normalized against [`QUAT_ONE`]. Interpolation fractions are rational
//! numbers `num / den` with `0 <= num <= den`, so every operation here is
//! exact integer arithmetic with a closed-form contract.

use vstd::prelude::*;
use vstd::arithmetic::div_mod::{
    lemma_div_is_ordered, lemma_div_multiples_vanish, lemma_div_pos_is_pos,
};
use vstd::arithmetic::mul::{lemma_mul_inequality, lemma_mul_nonnegative, lemma_mul_upper_bound};

verus! {

/// The fixed-point representation of 1 for quaternion components: a unit
/// quaternion has all components in `[-QUAT_ONE, QUAT_ONE]`.
pub const QUAT_ONE: i32 = 65536;

/// A 3-component vector of fixed-point values.
#[derive(Clone, Copy, PartialEq, Eq, Structural, Debug)]
pub struct Vec3 {
    pub x: i32,
    pub y: i32,
    pub z: i32,
}

/// A quaternion of fixed-point components, `w` the scalar part.
#[derive(Clone, Copy, PartialEq, Eq, Structural, Debug)]
pub struct Quat {
    pub x: i32,
    pub y: i32,
    pub z: i32,
    pub w: i32,
}

/// Linear interpolation from `a` towards `b` by the fraction `num / den`,
/// rounded towards `a`.
pub open spec fn lerp_int(a: int, b: int, num: int, den: int) -> int {
    if b >= a {
        a + (b - a) * num / den
    } else {
        a - (a - b) * num / den
    }
}

/// The interpolant always lies between its two endpoints.
pub proof fn lemma_lerp_int_bounds(a: int, b: int, num: int, den: int)
    requires
        0 < den,
        0 <= num <= den,
    ensures
        b >= a ==> a <= lerp_int(a, b, num, den) <= b,
        b < a ==> b <= lerp_int(a, b, num, den) <= a,
{
    let d = if b >= a { b - a } else { a - b };
    lemma_mul_nonnegative(d, num);
    lemma_div_pos_is_pos(d * num, den);
    lemma_mul_inequality(num, den, d);
    assert(num * d == d * num) by (nonlinear_arith);
    assert(den * d == d * den) by (nonlinear_arith);
    lemma_div_is_ordered(d * num, d * den, den);
    lemma_div_multiples_vanish(d, den);
    assert(den * d == d * den) by (nonlinear_arith);
    assert(d * num / den <= d);
}

/// Fixed-point linear interpolation of scalars, exact per [`lerp_int`].
pub fn lerp_i32(a: i32, b: i32, num: u32, den: u32) -> (r: i32)
    requires
        0 < den,
        num <= den,
    ensures
        r == lerp_int(a as int, b as int, num as int, den as int),
{
    proof {
        lemma_lerp_int_bounds(a as int, b as int, num as int, den as int);
    }
    if b >= a {
        let diff: u64 = (b as i64 - a as i64) as u64;
        proof {
            lemma_mul_upper_bound(diff as int, 0xffff_ffff, num as int, 0xffff_ffff);
        }
        let step: u64 = diff * (num as u64) / (den as u64);
        proof {
            lemma_mul_nonnegative(diff as int, num as int);
            lemma_div_pos_is_pos(diff as int * num as int, den as int);
            lemma_mul_inequality(num as int, den as int, diff as int);
            assert(num as int * diff as int == diff as int * num as int) by (nonlinear_arith);
            assert(den as int * diff as int == diff as int * den as int) by (nonlinear_arith);
            lemma_div_is_ordered(diff as int * num as int, diff as int * den as int, den as int);
            lemma_div_multiples_vanish(diff as int, den as int);
        }
        (a as i64 + step as i64) as i32
    } else {
        let diff: u64 = (a as i64 - b as i64) as u64;
        proof {
            lemma_mul_upper_bound(diff as int, 0xffff_ffff, num as int, 0xffff_ffff);
        }
        let step: u64 = diff * (num as u64) / (den as u64);
        proof {
            lemma_mul_nonnegative(diff as int, num as int);
            lemma_div_pos_is_pos(diff as int * num as int, den as int);
            lemma_mul_inequality(num as int, den as int, diff as int);
            assert(num as int * diff as int == diff as int * num as int) by (nonlinear_arith);
            assert(den as int * diff as int == diff as int * den as int) by (nonlinear_arith);
            lemma_div_is_ordered(diff as int * num as int, diff as int * den as int, den as int);
            lemma_div_multiples_vanish(diff as int, den as int);
        }
        (a as i64 - step as i64) as i32
    }
}

/// Component-wise linear interpolation of two vectors by `num / den`.
pub open spec fn spec_vec3_lerp(a: Vec3, b: Vec3, num: int, den: int) -> Vec3 {
    Vec3 {
        x: lerp_int(a.x as int, b.x as int, num, den) as i32,
        y: lerp_int(a.y as int, b.y as int, num, den) as i32,
        z: lerp_int(a.z as int, b.z as int, num, den) as i32,
    }
}

/// Component-wise linear interpolation of two vectors, exact per
/// [`spec_vec3_lerp`].
pub fn vec3_lerp(a: Vec3, b: Vec3, num: u32, den: u32) -> (r: Vec3)
    requires
        0 < den,
        num <= den,
    ensures
        r == spec_vec3_lerp(a, b, num as int, den as int),
{
    proof {
        lemma_lerp_int_bounds(a.x as int, b.x as int, num as int, den as int);
        lemma_lerp_int_bounds(a.y as int, b.y as int, num as int, den as int);
        lemma_lerp_int_bounds(a.z as int, b.z as int, num as int, den as int);
    }
    Vec3 {
        x: lerp_i32(a.x, b.x, num, den),
        y: lerp_i32(a.y, b.y, num, den),
        z: lerp_i32(a.z, b.z, num, den),
    }
}

/// The integer square root: the greatest `r` with `r * r <= n`.
pub open spec fn isqrt_spec(n: nat) -> nat
    decreases n,
{
    if n == 0 {
        0
    } else {
        let r = isqrt_spec((n - 1) as nat);
        if (r + 1) * (r + 1) <= n {
            r + 1
        } else {
            r
        }
    }
}

/// [`isqrt_spec`] is bracketed by the two adjacent squares.
pub proof fn lemma_isqrt_spec_bounds(n: nat)
    ensures
        isqrt_spec(n) * isqrt_spec(n) <= n,
        n < (isqrt_spec(n) + 1) * (isqrt_spec(n) + 1),
    decreases n,
{
    if n == 0 {
        assert(isqrt_spec(0) == 0);
        assert((isqrt_spec(0) + 1) * (isqrt_spec(0) + 1) == 1) by (nonlinear_arith);
    } else {
        let m = (n - 1) as nat;
        lemma_isqrt_spec_bounds(m);
        let r = isqrt_spec(m);
        if (r + 1) * (r + 1) <= n {
            assert(isqrt_spec(n) == r + 1);
            assert((r + 1) * (r + 1) < (r + 2) * (r + 2)) by (nonlinear_arith);
        } else {
            assert(isqrt_spec(n) == r);
        }
    }
}

/// Any `r` bracketed by the two adjacent squares is the integer square root.
pub proof fn lemma_isqrt_unique(n: nat, r: nat)
    requires
        r * r <= n,
        n < (r + 1) * (r + 1),
    ensures
        r == isqrt_spec(n),
{
    lemma_isqrt_spec_bounds(n);
    let s = isqrt_spec(n);
    if r < s {
        assert((r + 1) * (r + 1) <= s * s) by (nonlinear_arith)
            requires r + 1 <= s;
    } else if s < r {
        assert((s + 1) * (s + 1) <= r * r) by (nonlinear_arith)
            requires s + 1 <= r;
    }
}

/// The integer square root, by binary search, exact per [`isqrt_spec`].
pub fn isqrt64(n: u64) -> (r: u64)
    ensures
        r == isqrt_spec(n as nat),
        r as int * r as int <= n as int,
        (n as int) < (r as int + 1) * (r as int + 1),
        r <= 0xffff_ffff,
{
    let mut lo: u64 = 0;
    let mut hi: u64 = 0x1_0000_0000;
    proof {
        assert((0x1_0000_0000 as int) * (0x1_0000_0000 as int) > n as int) by (nonlinear_arith)
            requires n <= 0xffff_ffff_ffff_ffff;
    }
    while lo + 1 < hi
        invariant
            lo < hi <= 0x1_0000_0000,
            lo as int * lo as int <= n as int,
            (n as int) < hi as int * hi as int,
        decreases hi - lo,
    {
        let mid: u64 = lo + (hi - lo) / 2;
        proof {
            assert(mid as int * mid as int <= 0x1_0000_0000_0000_0000) by (nonlinear_arith)
                requires 0 <= mid <= 0x1_0000_0000;
        }
        let sq: u128 = (mid as u128) * (mid as u128);
        if sq <= n as u128 {
            lo = mid;
        } else {
            hi = mid;
        }
    }
    proof {
        lemma_isqrt_unique(n as nat, lo as nat);
    }
    lo
}

/// The four-component dot product, the quantity whose sign decides the
/// shortest rotational arc.
pub open spec fn spec_quat_dot(p: Quat, q: Quat) -> int {
    p.x as int * q.x as int + p.y as int * q.y as int + p.z as int * q.z as int
        + p.w as int * q.w as int
}

/// Components must exceed `i32::MIN` so that negating a quaternion is exact.
pub open spec fn quat_wf(q: Quat) -> bool {
    q.x > i32::MIN && q.y > i32::MIN && q.z > i32::MIN && q.w > i32::MIN
}

proof fn lemma_i32_mul_bound(a: int, b: int)
    requires
        -0x8000_0000 <= a <= 0x7fff_ffff,
        -0x8000_0000 <= b <= 0x7fff_ffff,
    ensures
        -0x4000_0000_0000_0000 <= a * b <= 0x4000_0000_0000_0000,
{
    assert(-0x4000_0000_0000_0000 <= a * b <= 0x4000_0000_0000_0000) by (nonlinear_arith)
        requires -0x8000_0000 <= a <= 0x8000_0000, -0x8000_0000 <= b <= 0x8000_0000;
}

/// The dot product of two quaternions, exact per [`spec_quat_dot`].
pub fn quat_dot(p: &Quat, q: &Quat) -> (r: i128)
    ensures
        r == spec_quat_dot(*p, *q),
{
    proof {
        lemma_i32_mul_bound(p.x as int, q.x as int);
        lemma_i32_mul_bound(p.y as int, q.y as int);
        lemma_i32_mul_bound(p.z as int, q.z as int);
        lemma_i32_mul_bound(p.w as int, q.w as int);
    }
    (p.x as i128) * (q.x as i128) + (p.y as i128) * (q.y as i128) + (p.z as i128) * (q.z as i128)
        + (p.w as i128) * (q.w as i128)
}

/// The negated quaternion, which represents the same rotation.
pub open spec fn spec_quat_neg(q: Quat) -> Quat {
    Quat {
        x: (-(q.x as int)) as i32,
        y: (-(q.y as int)) as i32,
        z: (-(q.z as int)) as i32,
        w: (-(q.w as int)) as i32,
    }
}

/// Negation, exact per [`spec_quat_neg`].
pub fn quat_neg(q: &Quat) -> (r: Quat)
    requires
        quat_wf(*q),
    ensures
        r == spec_quat_neg(*q),
        quat_wf(r),
{
    Quat { x: -q.x, y: -q.y, z: -q.z, w: -q.w }
}

/// Component-wise linear interpolation of two quaternions by `num / den`.
pub open spec fn spec_quat_lerp(p: Quat, q: Quat, num: int, den: int) -> Quat {
    Quat {
        x: lerp_int(p.x as int, q.x as int, num, den) as i32,
        y: lerp_int(p.y as int, q.y as int, num, den) as i32,
        z: lerp_int(p.z as int, q.z as int, num, den) as i32,
        w: lerp_int(p.w as int, q.w as int, num, den) as i32,
    }
}

/// Component-wise quaternion interpolation, exact per [`spec_quat_lerp`].
pub fn quat_lerp(p: &Quat, q: &Quat, num: u32, den: u32) -> (r: Quat)
    requires
        0 < den,
        num <= den,
    ensures
        r == spec_quat_lerp(*p, *q, num as int, den as int),
        quat_wf(*p) && quat_wf(*q) ==> quat_wf(r),
{
    proof {
        lemma_lerp_int_bounds(p.x as int, q.x as int, num as int, den as int);
        lemma_lerp_int_bounds(p.y as int, q.y as int, num as int, den as int);
        lemma_lerp_int_bounds(p.z as int, q.z as int, num as int, den as int);
        lemma_lerp_int_bounds(p.w as int, q.w as int, num as int, den as int);
    }
    Quat {
        x: lerp_i32(p.x, q.x, num, den),
        y: lerp_i32(p.y, q.y, num, den),
        z: lerp_i32(p.z, q.z, num, den),
        w: lerp_i32(p.w, q.w, num, den),
    }
}

/// One component of quaternion renormalization: `c` rescaled so that a
/// vector of magnitude `m` gains magnitude [`QUAT_ONE`], rounded towards
/// zero.
pub open spec fn spec_norm_comp(c: int, m: int) -> int {
    if c >= 0 {
        c * (QUAT_ONE as int) / m
    } else {
        -((-c) * (QUAT_ONE as int) / m)
    }
}

fn norm_comp(c: i32, m: u64) -> (r: i32)
    requires
        c > i32::MIN,
        1 <= m <= 0xffff_ffff,
        (if c >= 0 { c as int } else { -(c as int) }) <= m as int,
    ensures
        r == spec_norm_comp(c as int, m as int),
        -(QUAT_ONE as int) <= r as int <= QUAT_ONE as int,
{
    let mag: u64 = if c >= 0 { c as u64 } else { (-(c as i64)) as u64 };
    proof {
        assert(mag as int * (QUAT_ONE as int) <= m as int * (QUAT_ONE as int)) by {
            lemma_mul_inequality(mag as int, m as int, QUAT_ONE as int);
        }
        assert(mag as int * (QUAT_ONE as int) <= 0xffff_ffff_0000_0000) by (nonlinear_arith)
            requires 0 <= mag <= 0xffff_ffff;
        lemma_mul_nonnegative(mag as int, QUAT_ONE as int);
        lemma_div_pos_is_pos(mag as int * (QUAT_ONE as int), m as int);
        lemma_div_is_ordered(
            mag as int * (QUAT_ONE as int),
            m as int * (QUAT_ONE as int),
            m as int,
        );
        lemma_div_multiples_vanish(QUAT_ONE as int, m as int);
    }
    let v: u64 = mag * (QUAT_ONE as u64) / m;
    if c >= 0 {
        v as i32
    } else {
        -(v as i32)
    }
}

/// The quaternion rescaled to magnitude [`QUAT_ONE`] (a zero quaternion is
/// returned unchanged), countering the drift that interpolation introduces.
pub open spec fn spec_quat_normalize(q: Quat) -> Quat {
    let nsq = spec_quat_dot(q, q);
    if nsq == 0 {
        q
    } else {
        let m = isqrt_spec(nsq as nat) as int;
        Quat {
            x: spec_norm_comp(q.x as int, m) as i32,
            y: spec_norm_comp(q.y as int, m) as i32,
            z: spec_norm_comp(q.z as int, m) as i32,
            w: spec_norm_comp(q.w as int, m) as i32,
        }
    }
}

proof fn lemma_comp_le_isqrt(c: int, nsq: nat)
    requires
        c * c <= nsq,
    ensures
        (if c >= 0 { c } else { -c }) <= isqrt_spec(nsq) as int,
{
    lemma_isqrt_spec_bounds(nsq);
    let a: int = if c >= 0 { c } else { -c };
    if c < 0 {
        assert((-c) * (-c) == c * c) by (nonlinear_arith);
    }
    let m = isqrt_spec(nsq) as int;
    if a > m {
        assert((m + 1) * (m + 1) <= a * a) by (nonlinear_arith)
            requires m + 1 <= a, m >= 0;
    }
}

proof fn lemma_square_nonneg(c: int)
    ensures
        c * c >= 0,
{
    assert(c * c >= 0) by (nonlinear_arith);
}

/// Renormalization, exact per [`spec_quat_normalize`].
pub fn quat_normalize(q: &Quat) -> (r: Quat)
    requires
        quat_wf(*q),
    ensures
        r == spec_quat_normalize(*q),
        quat_wf(r),
{
    proof {
        lemma_square_nonneg(q.x as int);
        lemma_square_nonneg(q.y as int);
        lemma_square_nonneg(q.z as int);
        lemma_square_nonneg(q.w as int);
        assert(q.x as int * q.x as int <= 0x3fff_ffff_0000_0001) by (nonlinear_arith)
            requires -0x7fff_ffff <= q.x as int <= 0x7fff_ffff;
        assert(q.y as int * q.y as int <= 0x3fff_ffff_0000_0001) by (nonlinear_arith)
            requires -0x7fff_ffff <= q.y as int <= 0x7fff_ffff;
        assert(q.z as int * q.z as int <= 0x3fff_ffff_0000_0001) by (nonlinear_arith)
            requires -0x7fff_ffff <= q.z as int <= 0x7fff_ffff;
        assert(q.w as int * q.w as int <= 0x3fff_ffff_0000_0001) by (nonlinear_arith)
            requires -0x7fff_ffff <= q.w as int <= 0x7fff_ffff;
    }
    let nsq: i128 = quat_dot(q, q);
    if nsq == 0 {
        *q
    } else {
        let m: u64 = isqrt64(nsq as u64);
        proof {
            lemma_comp_le_isqrt(q.x as int, nsq as nat);
            lemma_comp_le_isqrt(q.y as int, nsq as nat);
            lemma_comp_le_isqrt(q.z as int, nsq as nat);
            lemma_comp_le_isqrt(q.w as int, nsq as nat);
        }
        Quat {
            x: norm_comp(q.x, m),
            y: norm_comp(q.y, m),
            z: norm_comp(q.z, m),
            w: norm_comp(q.w, m),
        }
    }
}

/// Rotation interpolation: linear interpolation across the shorter
/// rotational arc, renormalized. When the endpoints' dot product is
/// negative the far key is negated first, since a quaternion and its
/// negation are the same rotation and interpolating across the sign flip
/// would travel the long arc.
pub open spec fn spec_rotate_interp(p: Quat, q: Quat, num: int, den: int) -> Quat {
    let q1 = if spec_quat_dot(p, q) < 0 {
        spec_quat_neg(q)
    } else {
        q
    };
    spec_quat_normalize(spec_quat_lerp(p, q1, num, den))
}

/// Rotation interpolation, exact per [`spec_rotate_interp`].
pub fn rotate_interp(p: &Quat, q: &Quat, num: u32, den: u32) -> (r: Quat)
    requires
        quat_wf(*p),
        quat_wf(*q),
        0 < den,
        num <= den,
    ensures
        r == spec_rotate_interp(*p, *q, num as int, den as int),
        quat_wf(r),
{
    let d: i128 = quat_dot(p, q);
    let q1: Quat = if d < 0 {
        quat_neg(q)
    } else {
        *q
    };
    let l: Quat = quat_lerp(p, &q1, num, den);
    quat_normalize(&l)
}

/// The shortest-arc law: when the keys' dot product is negative, the
/// interpolated rotation is the renormalized interpolation towards the
/// negated far key, and that negated key lies on the near side — its dot
/// product with the first key is positive, so the arc traveled stays
/// within a half turn.
pub proof fn lemma_shortest_arc(p: Quat, q: Quat, num: int, den: int)
    requires
        quat_wf(q),
        spec_quat_dot(p, q) < 0,
    ensures
        spec_rotate_interp(p, q, num, den) == spec_quat_normalize(
            spec_quat_lerp(p, spec_quat_neg(q), num, den),
        ),
        spec_quat_dot(p, spec_quat_neg(q)) == -spec_quat_dot(p, q),
        spec_quat_dot(p, spec_quat_neg(q)) > 0,
{
    let n = spec_quat_neg(q);
    assert(n.x as int == -(q.x as int));
    assert(n.y as int == -(q.y as int));
    assert(n.z as int == -(q.z as int));
    assert(n.w as int == -(q.w as int));
    assert(p.x as int * (-(q.x as int)) == -(p.x as int * q.x as int)) by (nonlinear_arith);
    assert(p.y as int * (-(q.y as int)) == -(p.y as int * q.y as int)) by (nonlinear_arith);
    assert(p.z as int * (-(q.z as int)) == -(p.z as int * q.z as int)) by (nonlinear_arith);
    assert(p.w as int * (-(q.w as int)) == -(p.w as int * q.w as int)) by (nonlinear_arith);
}

} // verus!
