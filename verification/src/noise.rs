//! Deterministic value noise and its fractal composer.
//!
//! `hash` maps a lattice point to a pseudo-random scalar in `[0, ONE)`;
//! `noise` interpolates the four surrounding corner hashes with a cubic
//! blend; `seam_noise` blends the wrapped horizontal neighbor inside a
//! narrow band at each edge of the unit interval; `fbm` sums seam-corrected
//! octaves of doubling frequency and halving amplitude.

use vstd::prelude::*;
use crate::fixed::{
    ONE, fp_ok, add_s, sub_s, mul_s, div_s, fract_s, floor_s, min_s, max_s, sin_s, mix_s,
    fp_add, fp_sub, fp_mul, fp_div, fp_fract, fp_min, fp_sin, mix_fp, lemma_mix_bounds,
    lemma_mul_s_le_factor,
};
use crate::vec::{Vec2, vec2_ok, dot_s};
use vstd::arithmetic::div_mod::{
    lemma_fundamental_div_mod, lemma_div_is_ordered, lemma_div_pos_is_pos,
    lemma_div_multiples_vanish, lemma_mod_division_less_than_divisor, lemma_div_of0,
};
use vstd::arithmetic::mul::{
    lemma_mul_nonnegative, lemma_mul_upper_bound, lemma_mul_inequality, lemma_mul_is_associative,
    lemma_mul_by_zero_is_zero, lemma_mul_is_commutative,
};
use vstd::arithmetic::power2::{pow2, lemma_pow2_unfold, lemma_pow2_adds, lemma2_to64};

verus! {

/// First hash direction, 127.1 in 16.16 fixed point.
pub const HASH_KX: i64 = 8329626;

/// Second hash direction, 311.7 in 16.16 fixed point.
pub const HASH_KY: i64 = 20427571;

/// Hash amplitude, 43758.5453 in 16.16 fixed point.
pub const HASH_AMP: i64 = 2867760025;

/// Width of the horizontal wrap blend band, 0.03 in 16.16 fixed point.
pub const SEAM_BAND: i64 = 1966;

/// Twice `ONE`: the per-octave frequency doubling factor.
pub const TWO_FP: i64 = 131072;

/// Half `ONE`: the leading octave amplitude.
pub const HALF_FP: i64 = 32768;

/// The cubic smoothing curve `t * t * (3 - 2 * t)` on `[0, ONE]`.
pub open spec fn cubic01_s(t: int) -> int {
    mul_s(mul_s(t, t), 3 * ONE - 2 * t)
}

/// The cubic smoothing curve maps `[0, ONE]` into `[0, ONE]`.
pub proof fn lemma_cubic01_bounds(t: int)
    requires
        0 <= t <= ONE,
    ensures
        0 <= cubic01_s(t) <= ONE,
{
    let o: int = ONE as int;
    lemma_mul_nonnegative(t, t);
    lemma_mul_upper_bound(t, o, t, o);
    lemma_div_is_ordered(0, t * t, o);
    lemma_div_is_ordered(t * t, o * o, o);
    lemma_div_multiples_vanish(o, o);
    let u: int = mul_s(t, t);
    assert(u == (t * t) / o);
    let w: int = 3 * o - 2 * t;
    lemma_fundamental_div_mod(t * t, o);
    lemma_mod_division_less_than_divisor(t * t, o);
    assert(o * u <= t * t);
    lemma_mul_nonnegative(u, w);
    lemma_div_is_ordered(0, u * w, o);
    lemma_mul_inequality(o * u, t * t, w);
    assert((t * t) * w <= o * o * o) by (nonlinear_arith)
        requires
            0 <= t <= o && w == 3 * o - 2 * t,
    ;
    lemma_mul_is_associative(o, u, w);
    assert(u * w <= o * o);
    lemma_div_is_ordered(u * w, o * o, o);
}

/// At the ends of its domain the cubic smoothing curve is exact.
pub proof fn lemma_cubic01_ends()
    ensures
        cubic01_s(0) == 0,
        cubic01_s(ONE as int) == ONE,
{
    let o: int = ONE as int;
    lemma_mul_by_zero_is_zero(o);
    lemma_div_of0(o);
    assert(mul_s(0, 0) == 0);
    assert(cubic01_s(0) == 0);
    lemma_div_multiples_vanish(o, o);
    lemma_mul_is_commutative(o, o);
    assert(mul_s(o, o) == o);
    assert(cubic01_s(o) == o);
}

fn cubic01(t: i64) -> (r: i64)
    requires
        0 <= t <= ONE,
    ensures
        r == cubic01_s(t as int),
        0 <= r <= ONE,
{
    proof {
        lemma_cubic01_bounds(t as int);
    }
    let u: i64 = fp_mul(t, t);
    let w: i64 = 3 * ONE - 2 * t;
    fp_mul(u, w)
}

/// The blend ratio of `smoothstep`, clamped into `[0, ONE]`.
pub open spec fn smooth_t_s(e0: int, e1: int, x: int) -> int {
    let d = sub_s(x, e0);
    if d <= 0 {
        0
    } else {
        min_s(div_s(d, sub_s(e1, e0)), ONE as int)
    }
}

/// Soft threshold: 0 below `e0`, 1 above `e1`, a smooth cubic ramp between.
pub open spec fn smoothstep_s(e0: int, e1: int, x: int) -> int {
    cubic01_s(smooth_t_s(e0, e1, x))
}

/// The smoothstep ratio stays in `[0, ONE]` and saturates at the edges.
pub proof fn lemma_smooth_t_bounds(e0: int, e1: int, x: int)
    requires
        fp_ok(e0),
        fp_ok(e1),
        fp_ok(x),
        e0 < e1,
    ensures
        0 <= smooth_t_s(e0, e1, x) <= ONE,
        x <= e0 ==> smooth_t_s(e0, e1, x) == 0,
        x >= e1 ==> smooth_t_s(e0, e1, x) == ONE,
{
    let o: int = ONE as int;
    let d: int = sub_s(x, e0);
    let de: int = sub_s(e1, e0);
    if d > 0 {
        lemma_mul_nonnegative(d, o);
        lemma_div_pos_is_pos(d * o, de);
        if x >= e1 {
            lemma_mul_inequality(de, d, o);
            lemma_mul_is_commutative(de, o);
            lemma_mul_is_commutative(d, o);
            lemma_div_is_ordered(de * o, d * o, de);
            lemma_div_multiples_vanish(o, de);
        }
    }
}

/// `smoothstep_s` lies in `[0, ONE]` and is exact at and beyond both edges.
pub proof fn lemma_smoothstep_bounds(e0: int, e1: int, x: int)
    requires
        fp_ok(e0),
        fp_ok(e1),
        fp_ok(x),
        e0 < e1,
    ensures
        0 <= smoothstep_s(e0, e1, x) <= ONE,
        x <= e0 ==> smoothstep_s(e0, e1, x) == 0,
        x >= e1 ==> smoothstep_s(e0, e1, x) == ONE,
{
    lemma_smooth_t_bounds(e0, e1, x);
    lemma_cubic01_bounds(smooth_t_s(e0, e1, x));
    lemma_cubic01_ends();
}

/// Soft threshold of `x` between the edges `e0` and `e1`.
pub fn smoothstep(e0: i64, e1: i64, x: i64) -> (r: i64)
    requires
        fp_ok(e0 as int),
        fp_ok(e1 as int),
        fp_ok(x as int),
        e0 < e1,
    ensures
        r == smoothstep_s(e0 as int, e1 as int, x as int),
        0 <= r <= ONE,
        x <= e0 ==> r == 0,
        x >= e1 ==> r == ONE,
{
    proof {
        lemma_smooth_t_bounds(e0 as int, e1 as int, x as int);
        lemma_smoothstep_bounds(e0 as int, e1 as int, x as int);
    }
    let d: i64 = fp_sub(x, e0);
    let t: i64 = if d <= 0 {
        0
    } else {
        let de: i64 = fp_sub(e1, e0);
        fp_min(fp_div(d, de), ONE)
    };
    cubic01(t)
}

/// The deterministic lattice hash: the fractional part of an amplified
/// sine of a fixed dot product. Always in `[0, ONE)`.
#[verifier::opaque]
pub open spec fn hash_s(p: (int, int)) -> int {
    fract_s(mul_s(sin_s(dot_s(p, (HASH_KX as int, HASH_KY as int))), HASH_AMP as int))
}

pub proof fn lemma_hash_s_bounds(p: (int, int))
    ensures
        0 <= hash_s(p) < ONE,
{
    reveal(hash_s);
    lemma_mod_division_less_than_divisor(
        mul_s(sin_s(dot_s(p, (HASH_KX as int, HASH_KY as int))), HASH_AMP as int),
        ONE as int,
    );
}

/// Pseudo-random scalar for a lattice point (reduces `p` via a fixed
/// dot product, a sine, an amplification and a fractional part).
pub fn hash(p: Vec2) -> (r: i64)
    requires
        vec2_ok(p@),
    ensures
        r == hash_s(p@),
        0 <= r < ONE,
{
    proof {
        reveal(hash_s);
    }
    let d: i64 = p.dot(Vec2::new(HASH_KX, HASH_KY));
    let s: i64 = fp_sin(d);
    fp_fract(fp_mul(s, HASH_AMP))
}

/// Bilinear combination of the four corner hashes with smoothed weights.
#[verifier::opaque]
pub open spec fn bilinear_s(a: int, b: int, c: int, d: int, gx: int, gy: int) -> int {
    let wx = sub_s(ONE as int, gx);
    let wy = sub_s(ONE as int, gy);
    add_s(
        add_s(add_s(mul_s(mul_s(a, wx), wy), mul_s(mul_s(b, gx), wy)), mul_s(mul_s(c, wx), gy)),
        mul_s(mul_s(d, gx), gy),
    )
}

/// One bilinear term: scaled twice by weights in `[0, ONE]`, its value
/// stays below the corner hash and its `ONE^2` multiple below the product.
proof fn lemma_blend_term(h: int, w1: int, w2: int)
    requires
        0 <= h < ONE,
        0 <= w1 <= ONE,
        0 <= w2 <= ONE,
    ensures
        0 <= mul_s(mul_s(h, w1), w2) <= h,
        ONE * (ONE * mul_s(mul_s(h, w1), w2)) <= (h * w1) * w2,
{
    let o: int = ONE as int;
    lemma_mul_s_le_factor(h, w1);
    let u: int = mul_s(h, w1);
    lemma_mul_s_le_factor(u, w2);
    let t: int = mul_s(u, w2);
    lemma_mul_nonnegative(h, w1);
    lemma_fundamental_div_mod(h * w1, o);
    lemma_mod_division_less_than_divisor(h * w1, o);
    assert(o * u <= h * w1);
    lemma_mul_nonnegative(u, w2);
    lemma_fundamental_div_mod(u * w2, o);
    lemma_mod_division_less_than_divisor(u * w2, o);
    assert(o * t <= u * w2);
    lemma_mul_inequality(o * u, h * w1, w2);
    lemma_mul_is_associative(o, u, w2);
    assert(o * (u * w2) == (o * u) * w2);
}

/// The bilinear blend of four corner hashes in `[0, ONE)` with weights
/// from `[0, ONE]` stays in `[0, ONE)`.
pub proof fn lemma_bilinear_bounds(a: int, b: int, c: int, d: int, gx: int, gy: int)
    requires
        0 <= a < ONE,
        0 <= b < ONE,
        0 <= c < ONE,
        0 <= d < ONE,
        0 <= gx <= ONE,
        0 <= gy <= ONE,
    ensures
        0 <= bilinear_s(a, b, c, d, gx, gy) < ONE,
{
    reveal(bilinear_s);
    let o: int = ONE as int;
    let wx: int = sub_s(o, gx);
    let wy: int = sub_s(o, gy);
    lemma_blend_term(a, wx, wy);
    lemma_blend_term(b, gx, wy);
    lemma_blend_term(c, wx, gy);
    lemma_blend_term(d, gx, gy);
    let t1: int = mul_s(mul_s(a, wx), wy);
    let t2: int = mul_s(mul_s(b, gx), wy);
    let t3: int = mul_s(mul_s(c, wx), gy);
    let t4: int = mul_s(mul_s(d, gx), gy);
    lemma_mul_nonnegative(wx, wy);
    lemma_mul_nonnegative(gx, wy);
    lemma_mul_nonnegative(wx, gy);
    lemma_mul_nonnegative(gx, gy);
    lemma_mul_inequality(a, o - 1, wx * wy);
    lemma_mul_inequality(b, o - 1, gx * wy);
    lemma_mul_inequality(c, o - 1, wx * gy);
    lemma_mul_inequality(d, o - 1, gx * gy);
    lemma_mul_is_associative(a, wx, wy);
    lemma_mul_is_associative(b, gx, wy);
    lemma_mul_is_associative(c, wx, gy);
    lemma_mul_is_associative(d, gx, gy);
    assert(wx * wy + gx * wy + wx * gy + gx * gy == (wx + gx) * (wy + gy)) by (nonlinear_arith);
    assert((wx + gx) * (wy + gy) == o * o) by (nonlinear_arith)
        requires
            wx + gx == o && wy + gy == o,
    ;
    assert(o * (o * t1) + o * (o * t2) + o * (o * t3) + o * (o * t4) <= (o - 1) * (o * o));
    assert((o - 1) * (o * o) == o * (o * (o - 1)));
    assert(t1 + t2 + t3 + t4 <= o - 1);
}

/// Smoothed bilinear value noise: continuous in its argument, equal to the
/// corner hash at exact lattice points, always in `[0, ONE)`.
#[verifier::opaque]
pub open spec fn noise_s(p: (int, int)) -> int {
    let ix = floor_s(p.0);
    let iy = floor_s(p.1);
    let gx = cubic01_s(fract_s(p.0));
    let gy = cubic01_s(fract_s(p.1));
    bilinear_s(
        hash_s((ix, iy)),
        hash_s((add_s(ix, ONE as int), iy)),
        hash_s((ix, add_s(iy, ONE as int))),
        hash_s((add_s(ix, ONE as int), add_s(iy, ONE as int))),
        gx,
        gy,
    )
}

/// Value noise is bounded in `[0, ONE)` everywhere.
pub proof fn lemma_noise_s_bounds(p: (int, int))
    ensures
        0 <= noise_s(p) < ONE,
{
    reveal(noise_s);
    let ix: int = floor_s(p.0);
    let iy: int = floor_s(p.1);
    lemma_mod_division_less_than_divisor(p.0, ONE as int);
    lemma_mod_division_less_than_divisor(p.1, ONE as int);
    lemma_cubic01_bounds(fract_s(p.0));
    lemma_cubic01_bounds(fract_s(p.1));
    lemma_hash_s_bounds((ix, iy));
    lemma_hash_s_bounds((add_s(ix, ONE as int), iy));
    lemma_hash_s_bounds((ix, add_s(iy, ONE as int)));
    lemma_hash_s_bounds((add_s(ix, ONE as int), add_s(iy, ONE as int)));
    lemma_bilinear_bounds(
        hash_s((ix, iy)),
        hash_s((add_s(ix, ONE as int), iy)),
        hash_s((ix, add_s(iy, ONE as int))),
        hash_s((add_s(ix, ONE as int), add_s(iy, ONE as int))),
        cubic01_s(fract_s(p.0)),
        cubic01_s(fract_s(p.1)),
    );
}

/// At an exact lattice point the noise reduces to the hash of that point.
pub proof fn lemma_noise_at_lattice(p: (int, int))
    requires
        fract_s(p.0) == 0,
        fract_s(p.1) == 0,
    ensures
        noise_s(p) == hash_s(p),
{
    reveal(noise_s);
    reveal(bilinear_s);
    let o: int = ONE as int;
    lemma_cubic01_ends();
    assert(floor_s(p.0) == p.0);
    assert(floor_s(p.1) == p.1);
    let a: int = hash_s((p.0, p.1));
    let b: int = hash_s((add_s(p.0, o), p.1));
    let c: int = hash_s((p.0, add_s(p.1, o)));
    let d: int = hash_s((add_s(p.0, o), add_s(p.1, o)));
    lemma_hash_s_bounds((p.0, p.1));
    lemma_hash_s_bounds((add_s(p.0, o), p.1));
    lemma_hash_s_bounds((p.0, add_s(p.1, o)));
    lemma_hash_s_bounds((add_s(p.0, o), add_s(p.1, o)));
    lemma_div_of0(o);
    lemma_mul_by_zero_is_zero(o);
    lemma_mul_by_zero_is_zero(a);
    lemma_mul_by_zero_is_zero(b);
    lemma_mul_by_zero_is_zero(c);
    lemma_mul_by_zero_is_zero(d);
    lemma_div_multiples_vanish(a, o);
    lemma_mul_is_commutative(a, o);
    assert(mul_s(a, o) == a);
    assert(mul_s(mul_s(a, o), o) == a);
    assert(mul_s(b, 0) == 0);
    assert(mul_s(mul_s(b, 0), o) == 0);
    assert(mul_s(c, o) == c);
    assert(mul_s(mul_s(c, o), 0) == 0);
    assert(mul_s(d, 0) == 0);
    assert(mul_s(mul_s(d, 0), 0) == 0);
    assert(bilinear_s(a, b, c, d, 0, 0) == a);
}

/// Smoothed bilinear value noise at `p`.
pub fn noise(p: Vec2) -> (r: i64)
    requires
        vec2_ok(p@),
    ensures
        r == noise_s(p@),
        0 <= r < ONE,
{
    proof {
        reveal(noise_s);
        reveal(bilinear_s);
        lemma_noise_s_bounds(p@);
    }
    let i: Vec2 = p.floor();
    let f: Vec2 = p.fract();
    let gx: i64 = cubic01(f.x);
    let gy: i64 = cubic01(f.y);
    let a: i64 = hash(i);
    let b: i64 = hash(Vec2::new(fp_add(i.x, ONE), i.y));
    let c: i64 = hash(Vec2::new(i.x, fp_add(i.y, ONE)));
    let d: i64 = hash(Vec2::new(fp_add(i.x, ONE), fp_add(i.y, ONE)));
    let wx: i64 = fp_sub(ONE, gx);
    let wy: i64 = fp_sub(ONE, gy);
    let t1: i64 = fp_mul(fp_mul(a, wx), wy);
    let t2: i64 = fp_mul(fp_mul(b, gx), wy);
    let t3: i64 = fp_mul(fp_mul(c, wx), gy);
    let t4: i64 = fp_mul(fp_mul(d, gx), gy);
    fp_add(fp_add(fp_add(t1, t2), t3), t4)
}

/// Value noise with a blend band at each edge of the horizontal unit
/// interval: inside a band the wrapped sample one unit away is mixed in.
#[verifier::opaque]
pub open spec fn seam_noise_s(p: (int, int)) -> int {
    let base = noise_s(p);
    if p.0 < SEAM_BAND {
        let other = noise_s((add_s(p.0, ONE as int), p.1));
        mix_s(other, base, smoothstep_s(0, SEAM_BAND as int, p.0))
    } else if p.0 > ONE - SEAM_BAND {
        let other = noise_s((sub_s(p.0, ONE as int), p.1));
        mix_s(base, other, smoothstep_s(ONE - SEAM_BAND, ONE as int, p.0))
    } else {
        base
    }
}

/// The seam-corrected sample is bounded in `[0, ONE)` everywhere.
pub proof fn lemma_seam_noise_s_bounds(p: (int, int))
    requires
        vec2_ok(p),
    ensures
        0 <= seam_noise_s(p) < ONE,
{
    reveal(seam_noise_s);
    let base: int = noise_s(p);
    lemma_noise_s_bounds(p);
    if p.0 < SEAM_BAND {
        let other: int = noise_s((add_s(p.0, ONE as int), p.1));
        lemma_noise_s_bounds((add_s(p.0, ONE as int), p.1));
        lemma_smoothstep_bounds(0, SEAM_BAND as int, p.0);
        lemma_mix_bounds(other, base, smoothstep_s(0, SEAM_BAND as int, p.0));
    } else if p.0 > ONE - SEAM_BAND {
        let other: int = noise_s((sub_s(p.0, ONE as int), p.1));
        lemma_noise_s_bounds((sub_s(p.0, ONE as int), p.1));
        lemma_smoothstep_bounds(ONE - SEAM_BAND, ONE as int, p.0);
        lemma_mix_bounds(base, other, smoothstep_s(ONE - SEAM_BAND, ONE as int, p.0));
    }
}

/// Seam-corrected value noise at `p`.
pub fn seam_noise(p: Vec2) -> (r: i64)
    requires
        vec2_ok(p@),
    ensures
        r == seam_noise_s(p@),
        0 <= r < ONE,
{
    proof {
        reveal(seam_noise_s);
        lemma_seam_noise_s_bounds(p@);
    }
    let base: i64 = noise(p);
    if p.x < SEAM_BAND {
        let other: i64 = noise(Vec2::new(fp_add(p.x, ONE), p.y));
        let t: i64 = smoothstep(0, SEAM_BAND, p.x);
        mix_fp(other, base, t)
    } else if p.x > ONE - SEAM_BAND {
        let other: i64 = noise(Vec2::new(fp_sub(p.x, ONE), p.y));
        let t: i64 = smoothstep(ONE - SEAM_BAND, ONE, p.x);
        mix_fp(base, other, t)
    } else {
        base
    }
}

/// At the left end of the horizontal interval the sampler returns exactly
/// the wrapped sample from one unit to the right: the pixel column at
/// `u == 0` shows the noise from `u == ONE`.
pub proof fn lemma_seam_left_edge_is_wrapped_sample(v: int)
    requires
        fp_ok(v),
    ensures
        seam_noise_s((0, v)) == noise_s((ONE as int, v)),
{
    reveal(seam_noise_s);
    let o: int = ONE as int;
    let base: int = noise_s((0, v));
    let other: int = noise_s((o, v));
    lemma_noise_s_bounds((0, v));
    lemma_noise_s_bounds((o, v));
    lemma_smoothstep_bounds(0, SEAM_BAND as int, 0);
    assert(smoothstep_s(0, SEAM_BAND as int, 0) == 0);
    lemma_mul_by_zero_is_zero(sub_s(base, other));
    lemma_div_of0(o);
    assert(mul_s(sub_s(base, other), 0) == 0);
    assert(mix_s(other, base, 0) == other);
}

/// Outside the two blend bands the seam-corrected sampler is plain noise.
pub proof fn lemma_seam_matches_noise_off_band(p: (int, int))
    requires
        SEAM_BAND <= p.0 <= ONE - SEAM_BAND,
    ensures
        seam_noise_s(p) == noise_s(p),
{
    reveal(seam_noise_s);
}

/// Inside the left blend band the sample lies between the local noise and
/// the wrapped sample one unit to the right, so no value outside the range
/// spanned by the two sides can appear near the seam.
pub proof fn lemma_seam_blend_bounded_left(p: (int, int))
    requires
        vec2_ok(p),
        0 <= p.0 < SEAM_BAND,
    ensures
        min_s(noise_s(p), noise_s((add_s(p.0, ONE as int), p.1))) <= seam_noise_s(p),
        seam_noise_s(p) <= max_s(noise_s(p), noise_s((add_s(p.0, ONE as int), p.1))),
{
    reveal(seam_noise_s);
    let base: int = noise_s(p);
    let other: int = noise_s((add_s(p.0, ONE as int), p.1));
    lemma_noise_s_bounds(p);
    lemma_noise_s_bounds((add_s(p.0, ONE as int), p.1));
    lemma_smoothstep_bounds(0, SEAM_BAND as int, p.0);
    lemma_mix_bounds(other, base, smoothstep_s(0, SEAM_BAND as int, p.0));
}

/// Inside the right blend band the sample lies between the local noise and
/// the wrapped sample one unit to the left.
pub proof fn lemma_seam_blend_bounded_right(p: (int, int))
    requires
        vec2_ok(p),
        ONE - SEAM_BAND < p.0 <= ONE,
    ensures
        min_s(noise_s(p), noise_s((sub_s(p.0, ONE as int), p.1))) <= seam_noise_s(p),
        seam_noise_s(p) <= max_s(noise_s(p), noise_s((sub_s(p.0, ONE as int), p.1))),
{
    reveal(seam_noise_s);
    let base: int = noise_s(p);
    let other: int = noise_s((sub_s(p.0, ONE as int), p.1));
    lemma_noise_s_bounds(p);
    lemma_noise_s_bounds((sub_s(p.0, ONE as int), p.1));
    lemma_smoothstep_bounds(ONE - SEAM_BAND, ONE as int, p.0);
    lemma_mix_bounds(base, other, smoothstep_s(ONE - SEAM_BAND, ONE as int, p.0));
}

/// The tail-recursive octave sum behind `fbm_s`: adds `amp`-scaled
/// seam-corrected noise, then doubles the frequency and halves the
/// amplitude for the remaining octaves.
#[verifier::opaque]
pub open spec fn fbm_rec_s(p: (int, int), oct: nat, amp: int, acc: int) -> int
    decreases oct,
{
    if oct == 0 {
        acc
    } else {
        fbm_rec_s(
            (mul_s(p.0, TWO_FP as int), mul_s(p.1, TWO_FP as int)),
            (oct - 1) as nat,
            amp / 2,
            add_s(acc, mul_s(amp, seam_noise_s(p))),
        )
    }
}

/// Fractal sum of `oct` seam-corrected noise octaves, starting at
/// amplitude one half.
#[verifier::opaque]
pub open spec fn fbm_s(p: (int, int), oct: nat) -> int {
    fbm_rec_s(p, oct, HALF_FP as int, 0)
}

fn fbm_go(p: Vec2, oct: u32, amp: i64, acc: i64, Ghost(k): Ghost<nat>) -> (r: i64)
    requires
        vec2_ok(p@),
        amp == pow2(k),
        oct <= k,
        k <= 15,
        0 <= acc,
        acc + 2 * amp <= ONE,
    ensures
        r == fbm_rec_s(p@, oct as nat, amp as int, acc as int),
        acc <= r,
        r + 2 * pow2((k - oct) as nat) <= acc + 2 * pow2(k),
    decreases oct,
{
    proof {
        reveal(fbm_rec_s);
    }
    if oct == 0 {
        acc
    } else {
        let sn: i64 = seam_noise(p);
        proof {
            lemma_mul_s_le_factor(amp as int, sn as int);
            lemma_pow2_unfold(k);
            lemma_div_multiples_vanish(pow2((k - 1) as nat) as int, 2);
        }
        let term: i64 = fp_mul(amp, sn);
        let acc2: i64 = fp_add(acc, term);
        let p2: Vec2 = p.scale(TWO_FP);
        let r: i64 = fbm_go(p2, oct - 1, amp / 2, acc2, Ghost((k - 1) as nat));
        proof {
            vstd::arithmetic::power2::lemma_pow2_pos((k - oct) as nat);
            lemma_pow2_unfold((k - oct + 1) as nat);
        }
        r
    }
}

/// Fractal Brownian motion: `oct` octaves of seam-corrected noise with
/// doubling frequency and halving amplitude. The total is strictly below
/// one: it never exceeds `ONE - ONE / pow2(oct)`.
pub fn fbm(p: Vec2, oct: u32) -> (r: i64)
    requires
        vec2_ok(p@),
        oct <= 15,
    ensures
        r == fbm_s(p@, oct as nat),
        0 <= r <= ONE,
        r <= ONE - (ONE as int) / (pow2(oct as nat) as int),
{
    proof {
        reveal(fbm_s);
        lemma2_to64();
    }
    let r: i64 = fbm_go(p, oct, HALF_FP, 0, Ghost(15nat));
    proof {
        lemma_pow2_adds((15 - oct) as nat, oct as nat);
        lemma_pow2_unfold((16 - oct) as nat);
        lemma_pow2_adds((16 - oct) as nat, oct as nat);
        vstd::arithmetic::power2::lemma_pow2_pos(oct as nat);
        lemma_div_multiples_vanish(pow2((16 - oct) as nat) as int, pow2(oct as nat) as int);
        vstd::arithmetic::mul::lemma_mul_is_commutative(
            pow2((16 - oct) as nat) as int,
            pow2(oct as nat) as int,
        );
    }
    r
}

} // verus!
