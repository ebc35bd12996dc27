//! Ease-in/out blending and linear interpolation in fixed-point arithmetic.
//!
//! The blend curve is the classic ease-in-out-sine `(1 - cos(pi t)) / 2`,
//! held as sixteen samples of the cosine wave joined by exact linear
//! interpolation, so every stated property of the curve (end points,
//! midpoint, symmetry, monotonicity) is proved over plain integers.
//!
//! A curve input ranges over `0 ..= EASE_ONE` (time ratio in 1/65536 units);
//! a blend factor ranges over `0 ..= BLEND_ONE` (1/268435456 units). No
//! division is performed when sampling the curve, so the symmetry of the
//! cosine wave carries over exactly.

use vstd::prelude::*;
use crate::vec2::{Vec2, POS_LIMIT};

verus! {

/// One whole unit on the curve's input axis.
pub const EASE_ONE: u64 = 65536;

/// One whole unit on the curve's output axis: `EASE_ONE * 4096`.
pub const BLEND_ONE: u64 = 268435456;

/// Samples of `(1 - cos(pi k / 16)) / 2`, scaled by 65536 and rounded,
/// with the symmetric half derived as `65536 - sample(16 - k)`.
pub open spec fn spec_sample(k: int) -> int {
    if k <= 0 {
        0
    } else if k == 1 {
        630
    } else if k == 2 {
        2494
    } else if k == 3 {
        5522
    } else if k == 4 {
        9598
    } else if k == 5 {
        14563
    } else if k == 6 {
        20228
    } else if k == 7 {
        26375
    } else if k == 8 {
        32768
    } else if k == 9 {
        39161
    } else if k == 10 {
        45308
    } else if k == 11 {
        50973
    } else if k == 12 {
        55938
    } else if k == 13 {
        60014
    } else if k == 14 {
        63042
    } else if k == 15 {
        64906
    } else {
        65536
    }
}

fn sample(k: u64) -> (r: u64)
    requires
        k <= 16,
    ensures
        r == spec_sample(k as int),
{
    match k {
        0 => 0,
        1 => 630,
        2 => 2494,
        3 => 5522,
        4 => 9598,
        5 => 14563,
        6 => 20228,
        7 => 26375,
        8 => 32768,
        9 => 39161,
        10 => 45308,
        11 => 50973,
        12 => 55938,
        13 => 60014,
        14 => 63042,
        15 => 64906,
        _ => 65536,
    }
}

/// The blend factor at time ratio `t`, on segment `t / 4096` of the wave.
pub open spec fn spec_ease(t: int) -> int
    recommends
        0 <= t <= EASE_ONE,
{
    let k = t / 4096;
    let f = t % 4096;
    if k >= 16 {
        BLEND_ONE as int
    } else {
        spec_sample(k) * (4096 - f) + spec_sample(k + 1) * f
    }
}

/// Ease-in/out blend factor: slow start, fast middle, slow stop.
pub fn ease_in_out(t: u64) -> (r: u64)
    requires
        t <= EASE_ONE,
    ensures
        r == spec_ease(t as int),
        r <= BLEND_ONE,
{
    let k = t / 4096;
    let f = t % 4096;
    if k >= 16 {
        BLEND_ONE
    } else {
        let lo = sample(k);
        let hi = sample(k + 1);
        proof {
            lemma_sample_bounds(k as int);
            lemma_sample_bounds(k as int + 1);
            lemma_segment_bounds(t as int);
        }
        lo * (4096 - f) + hi * f
    }
}

proof fn lemma_sample_bounds(k: int)
    ensures
        0 <= spec_sample(k) <= 65536,
{
}

proof fn lemma_sample_monotone(k1: int, k2: int)
    requires
        k1 <= k2,
    ensures
        spec_sample(k1) <= spec_sample(k2),
{
}

/// Within segment `k`, the curve stays between its two samples.
proof fn lemma_segment_bounds(t: int)
    requires
        0 <= t <= EASE_ONE,
        t / 4096 < 16,
    ensures
        spec_sample(t / 4096) * 4096 <= spec_ease(t) <= spec_sample(t / 4096 + 1) * 4096,
{
    let k = t / 4096;
    let f = t % 4096;
    let lo = spec_sample(k);
    let hi = spec_sample(k + 1);
    lemma_sample_monotone(k, k + 1);
    assert(0 <= f < 4096) by (nonlinear_arith)
        requires
            f == t % 4096,
    ;
    assert(lo * (4096 - f) + hi * f >= lo * 4096) by (nonlinear_arith)
        requires
            0 <= f < 4096 && lo <= hi,
    ;
    assert(lo * (4096 - f) + hi * f <= hi * 4096) by (nonlinear_arith)
        requires
            0 <= f < 4096 && lo <= hi,
    ;
}

/// The curve starts at zero, ends at one, and passes through one half
/// exactly at the middle of its input range.
pub proof fn lemma_ease_endpoints()
    ensures
        spec_ease(0) == 0,
        spec_ease(EASE_ONE as int) == BLEND_ONE,
        spec_ease(EASE_ONE as int / 2) == BLEND_ONE as int / 2,
{
    assert(spec_ease(0) == 0);
    assert(spec_ease(65536) == 268435456);
    assert(32768int / 4096 == 8 && 32768int % 4096 == 0) by (nonlinear_arith);
    assert(spec_ease(32768) == 32768int * 4096 + spec_sample(9) * 0);
    assert(spec_ease(32768) == 134217728) by (nonlinear_arith)
        requires
            spec_ease(32768) == 32768int * 4096 + spec_sample(9) * 0,
    ;
}

/// The curve is symmetric about the middle of its range: easing in mirrors
/// easing out.
pub proof fn lemma_ease_symmetric(t: int)
    requires
        0 <= t <= EASE_ONE,
    ensures
        spec_ease(EASE_ONE - t) + spec_ease(t) == BLEND_ONE,
{
    let k = t / 4096;
    let f = t % 4096;
    assert(t == 4096 * k + f && 0 <= f < 4096 && 0 <= k <= 16) by (nonlinear_arith)
        requires
            0 <= t <= 65536 && k == t / 4096 && f == t % 4096,
    ;
    if f == 0 {
        assert((65536 - t) / 4096 == 16 - k && (65536 - t) % 4096 == 0) by (nonlinear_arith)
            requires
                t == 4096 * k && 0 <= k <= 16,
        ;
        if k >= 16 {
            assert(t == 65536);
            assert(spec_ease(0) == 0);
        } else if k == 0 {
            assert(t == 0);
            assert(spec_ease(65536) == BLEND_ONE as int);
        } else {
            assert(spec_sample(16 - k) + spec_sample(k) == 65536);
            assert(spec_sample(16 - k) * (4096 - 0) + spec_sample(16 - k + 1) * 0
                == spec_sample(16 - k) * 4096) by (nonlinear_arith);
            assert(spec_sample(k) * 4096 + spec_sample(16 - k) * 4096 == 65536 * 4096)
                by (nonlinear_arith)
                requires
                    spec_sample(16 - k) + spec_sample(k) == 65536,
            ;
        }
    } else {
        let s = 65536 - t;
        assert(s == 4096 * (15 - k) + (4096 - f) && 0 <= k <= 15) by (nonlinear_arith)
            requires
                s == 65536 - t && t == 4096 * k + f && 0 < f < 4096 && 0 <= t <= 65536,
        ;
        assert(s / 4096 == 15 - k && s % 4096 == 4096 - f) by (nonlinear_arith)
            requires
                s == 4096 * (15 - k) + (4096 - f) && 0 < 4096 - f < 4096 && 0 <= 15 - k,
        ;
        let a = spec_sample(k);
        let b = spec_sample(k + 1);
        let c = spec_sample(15 - k);
        let d = spec_sample(16 - k);
        assert(a + d == 65536 && b + c == 65536);
        assert(spec_ease(t) == a * (4096 - f) + b * f);
        assert(spec_ease(s) == c * (4096 - (4096 - f)) + d * (4096 - f));
        assert(a * (4096 - f) + b * f + c * f + d * (4096 - f) == 65536 * 4096)
            by (nonlinear_arith)
            requires
                a + d == 65536 && b + c == 65536 && 0 < f < 4096,
        ;
    }
}

/// The curve never decreases as its input grows.
pub proof fn lemma_ease_monotone(t1: int, t2: int)
    requires
        0 <= t1 <= t2 <= EASE_ONE,
    ensures
        spec_ease(t1) <= spec_ease(t2),
{
    let k1 = t1 / 4096;
    let k2 = t2 / 4096;
    assert(k1 <= k2 && 0 <= k1 && k2 <= 16) by (nonlinear_arith)
        requires
            0 <= t1 <= t2 <= 65536 && k1 == t1 / 4096 && k2 == t2 / 4096,
    ;
    if k1 >= 16 {
        assert(t1 == 65536 && t2 == 65536) by (nonlinear_arith)
            requires
                0 <= t1 <= t2 <= 65536 && t1 / 4096 >= 16,
        ;
    } else if k1 == k2 {
        let f1 = t1 % 4096;
        let f2 = t2 % 4096;
        assert(f1 <= f2) by (nonlinear_arith)
            requires
                0 <= t1 <= t2 && t1 / 4096 == t2 / 4096 && f1 == t1 % 4096 && f2 == t2 % 4096,
        ;
        lemma_sample_monotone(k1, k1 + 1);
        assert(spec_sample(k1) * (4096 - f1) + spec_sample(k1 + 1) * f1
            <= spec_sample(k1) * (4096 - f2) + spec_sample(k1 + 1) * f2) by (nonlinear_arith)
            requires
                f1 <= f2 && spec_sample(k1) <= spec_sample(k1 + 1),
        ;
    } else {
        lemma_segment_bounds(t1);
        lemma_sample_monotone(k1 + 1, k2);
        if k2 >= 16 {
            lemma_sample_bounds(k2);
            assert(spec_sample(k1 + 1) * 4096 <= 65536 * 4096) by (nonlinear_arith)
                requires
                    spec_sample(k1 + 1) <= 65536,
            ;
        } else {
            lemma_segment_bounds(t2);
            assert(spec_sample(k1 + 1) * 4096 <= spec_sample(k2) * 4096) by (nonlinear_arith)
                requires
                    spec_sample(k1 + 1) <= spec_sample(k2),
            ;
        }
    }
}

/// Linear interpolation from `a` to `b` by `blend / BLEND_ONE`.
pub open spec fn spec_lerp(a: int, b: int, blend: int) -> int {
    if b >= a {
        a + (b - a) * blend / (BLEND_ONE as int)
    } else {
        a - (a - b) * blend / (BLEND_ONE as int)
    }
}

pub fn lerp(a: i64, b: i64, blend: u64) -> (r: i64)
    requires
        -POS_LIMIT <= a <= POS_LIMIT,
        -POS_LIMIT <= b <= POS_LIMIT,
        blend <= BLEND_ONE,
    ensures
        r == spec_lerp(a as int, b as int, blend as int),
        a <= b ==> a <= r <= b,
        b <= a ==> b <= r <= a,
{
    if b >= a {
        let d = (b - a) as u64;
        proof {
            lemma_mul_fits(d as int, blend as int);
            lemma_scale_bounds(d as int, blend as int);
        }
        let step = d * blend / BLEND_ONE;
        a + step as i64
    } else {
        let d = (a - b) as u64;
        proof {
            lemma_mul_fits(d as int, blend as int);
            lemma_scale_bounds(d as int, blend as int);
        }
        let step = d * blend / BLEND_ONE;
        a - step as i64
    }
}

/// The product of an in-range difference and a blend factor fits in a word.
proof fn lemma_mul_fits(d: int, blend: int)
    requires
        0 <= d <= 2 * POS_LIMIT,
        0 <= blend <= BLEND_ONE,
    ensures
        d * blend <= 2 * POS_LIMIT as int * BLEND_ONE as int,
        0 <= d * blend,
{
    assert(0 <= d * blend && d * blend <= 2 * 1_000_000_000int * 268435456int)
        by (nonlinear_arith)
        requires
            0 <= d <= 2 * 1_000_000_000int && 0 <= blend <= 268435456int,
    ;
}

/// Scaling a non-negative difference by a blend in range keeps it in range.
proof fn lemma_scale_bounds(d: int, blend: int)
    requires
        0 <= d,
        0 <= blend <= BLEND_ONE,
    ensures
        0 <= d * blend / (BLEND_ONE as int) <= d,
{
    assert(0 <= d * blend) by (nonlinear_arith)
        requires
            0 <= d && 0 <= blend,
    ;
    assert(d * blend <= d * (BLEND_ONE as int)) by (nonlinear_arith)
        requires
            0 <= d && blend <= BLEND_ONE,
    ;
    assert(0 <= d * blend / (BLEND_ONE as int)) by (nonlinear_arith)
        requires
            0 <= d * blend,
    ;
    assert(d * blend / (BLEND_ONE as int) <= d) by (nonlinear_arith)
        requires
            d * blend <= d * (BLEND_ONE as int) && 0 <= d,
    ;
}

/// Interpolation starts exactly at `a` and ends exactly at `b`.
pub proof fn lemma_lerp_endpoints(a: int, b: int)
    ensures
        spec_lerp(a, b, 0) == a,
        spec_lerp(a, b, BLEND_ONE as int) == b,
{
    if b >= a {
        assert((b - a) * 0 / (BLEND_ONE as int) == 0) by (nonlinear_arith);
        assert((b - a) * (BLEND_ONE as int) / (BLEND_ONE as int) == b - a) by (nonlinear_arith);
    } else {
        assert((a - b) * 0 / (BLEND_ONE as int) == 0) by (nonlinear_arith);
        assert((a - b) * (BLEND_ONE as int) / (BLEND_ONE as int) == a - b) by (nonlinear_arith);
    }
}

/// Along the segment from `a` to `b`, the interpolated point advances
/// monotonically with the blend factor.
pub proof fn lemma_lerp_monotone(a: int, b: int, s1: int, s2: int)
    requires
        0 <= s1 <= s2 <= BLEND_ONE,
    ensures
        a <= b ==> spec_lerp(a, b, s1) <= spec_lerp(a, b, s2),
        b <= a ==> spec_lerp(a, b, s2) <= spec_lerp(a, b, s1),
{
    if a <= b {
        assert((b - a) * s1 <= (b - a) * s2) by (nonlinear_arith)
            requires
                0 <= b - a && s1 <= s2,
        ;
        assert((b - a) * s1 / (BLEND_ONE as int) <= (b - a) * s2 / (BLEND_ONE as int))
            by (nonlinear_arith)
            requires
                (b - a) * s1 <= (b - a) * s2,
        ;
    }
    if b <= a {
        assert((a - b) * s1 <= (a - b) * s2) by (nonlinear_arith)
            requires
                0 <= a - b && s1 <= s2,
        ;
        assert((a - b) * s1 / (BLEND_ONE as int) <= (a - b) * s2 / (BLEND_ONE as int))
            by (nonlinear_arith)
            requires
                (a - b) * s1 <= (a - b) * s2,
        ;
    }
}

/// Interpolate both coordinates of a position.
pub fn lerp_vec(a: Vec2, b: Vec2, blend: u64) -> (v: Vec2)
    requires
        a.wf(),
        b.wf(),
        blend <= BLEND_ONE,
    ensures
        v.x == spec_lerp(a.x as int, b.x as int, blend as int),
        v.y == spec_lerp(a.y as int, b.y as int, blend as int),
        v.wf(),
{
    Vec2 { x: lerp(a.x, b.x, blend), y: lerp(a.y, b.y, blend) }
}

} // verus!
