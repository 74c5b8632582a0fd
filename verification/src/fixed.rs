//! 16.16 fixed-point scalar arithmetic.
//!
//! A value `x: i64` stands for the real number `x / 65536`. Every operation
//! saturates at `FP_MAX`, a guard range far wider than anything the texture
//! pipelines produce, so all operations are total on well-formed values and
//! each executable function returns exactly what its spec mirror computes.

use vstd::prelude::*;
use vstd::arithmetic::div_mod::{
    lemma_fundamental_div_mod, lemma_fundamental_div_mod_converse_div,
    lemma_fundamental_div_mod_converse_mod, lemma_div_is_ordered, lemma_div_pos_is_pos,
    lemma_div_multiples_vanish,
};
use vstd::arithmetic::mul::lemma_mul_inequality;

verus! {

/// The fixed-point unit: the representation of the real number 1.
pub const ONE: i64 = 65536;

/// Saturation bound of every operation (a multiple of `ONE`).
pub const FP_MAX: i64 = 0x100_0000_0000_0000;

/// A well-formed fixed-point value lies inside the guard range.
pub open spec fn fp_ok(x: int) -> bool {
    -FP_MAX <= x <= FP_MAX
}

/// Saturation of a mathematical result into the guard range.
pub open spec fn clamp_s(x: int) -> int {
    if x < -FP_MAX {
        -FP_MAX as int
    } else if x > FP_MAX {
        FP_MAX as int
    } else {
        x
    }
}

pub open spec fn add_s(a: int, b: int) -> int {
    clamp_s(a + b)
}

pub open spec fn sub_s(a: int, b: int) -> int {
    clamp_s(a - b)
}

/// Fixed-point product, rounded toward minus infinity.
pub open spec fn mul_s(a: int, b: int) -> int {
    clamp_s((a * b) / (ONE as int))
}

/// Fixed-point quotient for a non-negative numerator and positive denominator.
pub open spec fn div_s(a: int, b: int) -> int {
    clamp_s((a * ONE) / b)
}

/// Fractional part, always in `[0, ONE)` (the Euclidean remainder).
pub open spec fn fract_s(x: int) -> int {
    x % (ONE as int)
}

/// Largest multiple of `ONE` not above `x`.
pub open spec fn floor_s(x: int) -> int {
    x - x % (ONE as int)
}

pub open spec fn min_s(a: int, b: int) -> int {
    if a < b {
        a
    } else {
        b
    }
}

pub open spec fn max_s(a: int, b: int) -> int {
    if a > b {
        a
    } else {
        b
    }
}

pub open spec fn clamp01_s(x: int) -> int {
    min_s(max_s(x, 0), ONE as int)
}

pub open spec fn abs_s(x: int) -> int {
    if x < 0 {
        -x
    } else {
        x
    }
}

/// Linear interpolation from `a` to `b` by `t` (`t` in `[0, ONE]`).
pub open spec fn mix_s(a: int, b: int, t: int) -> int {
    add_s(a, mul_s(sub_s(b, a), t))
}

pub fn fp_add(a: i64, b: i64) -> (r: i64)
    requires
        fp_ok(a as int),
        fp_ok(b as int),
    ensures
        r == add_s(a as int, b as int),
        fp_ok(r as int),
{
    let s: i64 = a + b;
    if s < -FP_MAX {
        -FP_MAX
    } else if s > FP_MAX {
        FP_MAX
    } else {
        s
    }
}

pub fn fp_sub(a: i64, b: i64) -> (r: i64)
    requires
        fp_ok(a as int),
        fp_ok(b as int),
    ensures
        r == sub_s(a as int, b as int),
        fp_ok(r as int),
{
    let s: i64 = a - b;
    if s < -FP_MAX {
        -FP_MAX
    } else if s > FP_MAX {
        FP_MAX
    } else {
        s
    }
}

/// Quotient of `p` by `ONE`, rounded toward minus infinity.
fn div_floor_unit(p: i128) -> (q: i128)
    requires
        -0x1000_0000_0000_0000_0000_0000_0000_0000 <= p
            <= 0x1000_0000_0000_0000_0000_0000_0000_0000,
    ensures
        q == (p as int) / (ONE as int),
{
    if p >= 0 {
        let q: i128 = p / 65536;
        q
    } else {
        let n: i128 = -p;
        let q: i128 = (n + 65535) / 65536;
        proof {
            let d: int = 65536;
            let qe: int = (n as int) / d;
            let re: int = (n as int) % d;
            lemma_fundamental_div_mod(n as int, d);
            if re == 0 {
                lemma_fundamental_div_mod_converse_div(n as int + 65535, d, qe, 65535);
                lemma_fundamental_div_mod_converse_div(p as int, d, -qe, 0);
            } else {
                lemma_fundamental_div_mod_converse_div(n as int + 65535, d, qe + 1, re - 1);
                lemma_fundamental_div_mod_converse_div(p as int, d, -(qe + 1), d - re);
            }
        }
        -q
    }
}

fn clamp_i128(q: i128) -> (r: i64)
    requires
        -0x1000_0000_0000_0000_0000_0000_0000_0000 <= q
            <= 0x1000_0000_0000_0000_0000_0000_0000_0000,
    ensures
        r == clamp_s(q as int),
        fp_ok(r as int),
{
    if q < -(FP_MAX as i128) {
        -FP_MAX
    } else if q > FP_MAX as i128 {
        FP_MAX
    } else {
        q as i64
    }
}

pub fn fp_mul(a: i64, b: i64) -> (r: i64)
    requires
        fp_ok(a as int),
        fp_ok(b as int),
    ensures
        r == mul_s(a as int, b as int),
        fp_ok(r as int),
{
    proof {
        lemma_mul_abs_bound(a as int, FP_MAX as int, b as int, FP_MAX as int);
    }
    let p: i128 = (a as i128) * (b as i128);
    let q: i128 = div_floor_unit(p);
    clamp_i128(q)
}

/// A product is bounded in magnitude by the product of magnitude bounds.
pub proof fn lemma_mul_abs_bound(a: int, amax: int, b: int, bmax: int)
    requires
        abs_s(a) <= amax,
        abs_s(b) <= bmax,
    ensures
        -(amax * bmax) <= a * b <= amax * bmax,
{
    let aa: int = abs_s(a);
    let bb: int = abs_s(b);
    vstd::arithmetic::mul::lemma_mul_upper_bound(aa, amax, bb, bmax);
    vstd::arithmetic::mul::lemma_mul_nonnegative(aa, bb);
    vstd::arithmetic::mul::lemma_mul_unary_negation(a, b);
    vstd::arithmetic::mul::lemma_mul_unary_negation(aa, b);
    if a >= 0 && b >= 0 {
        assert(a * b == aa * bb);
    } else if a >= 0 {
        vstd::arithmetic::mul::lemma_mul_unary_negation(aa, bb);
        assert(a * b == -(aa * bb));
    } else if b >= 0 {
        assert(a * b == -(aa * bb));
    } else {
        vstd::arithmetic::mul::lemma_mul_cancels_negatives(a, b);
        assert(a * b == aa * bb);
    }
}

pub fn fp_div(a: i64, b: i64) -> (r: i64)
    requires
        fp_ok(a as int),
        fp_ok(b as int),
        0 <= a,
        0 < b,
    ensures
        r == div_s(a as int, b as int),
        fp_ok(r as int),
        0 <= r,
{
    let p: i128 = (a as i128) * 65536;
    let q: i128 = p / (b as i128);
    proof {
        lemma_div_is_ordered(0, p as int, b as int);
    }
    if q > FP_MAX as i128 {
        FP_MAX
    } else {
        q as i64
    }
}

/// Euclidean remainder: the result is in `[0, m)` whatever the sign of `x`.
pub fn fp_emod(x: i64, m: i64) -> (r: i64)
    requires
        fp_ok(x as int),
        0 < m,
    ensures
        r == (x as int) % (m as int),
        0 <= r < m,
{
    if x >= 0 {
        x % m
    } else {
        let n: i64 = -x;
        let k: i64 = n % m;
        proof {
            let qe: int = (n as int) / (m as int);
            lemma_fundamental_div_mod(n as int, m as int);
            if k == 0 {
                assert((-qe) * (m as int) == -((m as int) * qe)) by (nonlinear_arith);
                lemma_fundamental_div_mod_converse_mod(x as int, m as int, -qe, 0);
            } else {
                assert((-(qe + 1)) * (m as int) == -((m as int) * qe) - m) by (nonlinear_arith);
                lemma_fundamental_div_mod_converse_mod(
                    x as int,
                    m as int,
                    -(qe + 1),
                    m as int - k,
                );
            }
        }
        if k == 0 {
            0
        } else {
            m - k
        }
    }
}

pub fn fp_fract(x: i64) -> (r: i64)
    requires
        fp_ok(x as int),
    ensures
        r == fract_s(x as int),
        0 <= r < ONE,
{
    fp_emod(x, ONE)
}

pub fn fp_floor(x: i64) -> (r: i64)
    requires
        fp_ok(x as int),
    ensures
        r == floor_s(x as int),
        fp_ok(r as int),
        (r as int) % (ONE as int) == 0,
{
    let m: i64 = fp_emod(x, ONE);
    proof {
        lemma_fundamental_div_mod(x as int, ONE as int);
        lemma_div_is_ordered(-FP_MAX as int, x as int, ONE as int);
        assert((-FP_MAX as int) / (ONE as int) == -0x100_0000_0000 as int);
        vstd::arithmetic::div_mod::lemma_mod_multiples_basic(
            (x as int) / (ONE as int),
            ONE as int,
        );
    }
    x - m
}

pub fn fp_min(a: i64, b: i64) -> (r: i64)
    ensures
        r == min_s(a as int, b as int),
{
    if a < b {
        a
    } else {
        b
    }
}

pub fn fp_max(a: i64, b: i64) -> (r: i64)
    ensures
        r == max_s(a as int, b as int),
{
    if a > b {
        a
    } else {
        b
    }
}

pub fn fp_clamp01(x: i64) -> (r: i64)
    ensures
        r == clamp01_s(x as int),
        0 <= r <= ONE,
{
    if x < 0 {
        0
    } else if x > ONE {
        ONE
    } else {
        x
    }
}

pub fn fp_abs(x: i64) -> (r: i64)
    requires
        fp_ok(x as int),
    ensures
        r == abs_s(x as int),
        fp_ok(r as int),
        0 <= r,
{
    if x < 0 {
        -x
    } else {
        x
    }
}

/// Linear interpolation from `a` to `b` by `t`.
pub fn mix_fp(a: i64, b: i64, t: i64) -> (r: i64)
    requires
        fp_ok(a as int),
        fp_ok(b as int),
        fp_ok(t as int),
    ensures
        r == mix_s(a as int, b as int, t as int),
        fp_ok(r as int),
{
    let d: i64 = fp_sub(b, a);
    let step: i64 = fp_mul(d, t);
    fp_add(a, step)
}

/// For a blend weight in `[0, ONE]` the interpolation lies between its ends.
pub proof fn lemma_mix_bounds(a: int, b: int, t: int)
    requires
        -0x4000_0000_0000 <= a <= 0x4000_0000_0000,
        -0x4000_0000_0000 <= b <= 0x4000_0000_0000,
        0 <= t <= ONE,
    ensures
        min_s(a, b) <= mix_s(a, b, t) <= max_s(a, b),
{
    let d: int = b - a;
    assert(sub_s(b, a) == d);
    if d >= 0 {
        lemma_mul_s_le_factor(d, t);
    } else {
        lemma_mul_s_neg_factor(d, t);
    }
}

/// Scaling a non-negative value by a weight in `[0, ONE]` shrinks it.
pub proof fn lemma_mul_s_le_factor(d: int, t: int)
    requires
        0 <= d <= FP_MAX,
        0 <= t <= ONE,
    ensures
        0 <= mul_s(d, t) <= d,
{
    lemma_mul_inequality(t, ONE as int, d);
    assert(d * t == t * d) by (nonlinear_arith);
    assert(d * t >= 0) by (nonlinear_arith)
        requires
            d >= 0 && t >= 0,
    ;
    lemma_div_is_ordered(0, d * t, ONE as int);
    lemma_div_is_ordered(d * t, d * ONE, ONE as int);
    lemma_div_multiples_vanish(d, ONE as int);
    assert(d * ONE == ONE * d) by (nonlinear_arith);
}

/// Scaling a non-positive value by a weight in `[0, ONE]` shrinks its magnitude.
pub proof fn lemma_mul_s_neg_factor(d: int, t: int)
    requires
        -FP_MAX <= d <= 0,
        0 <= t <= ONE,
    ensures
        d <= mul_s(d, t) <= 0,
{
    assert(d * ONE <= d * t <= 0) by (nonlinear_arith)
        requires
            -FP_MAX <= d <= 0 && 0 <= t <= ONE,
    ;
    lemma_div_is_ordered(d * ONE, d * t, ONE as int);
    lemma_div_is_ordered(d * t, 0, ONE as int);
    lemma_div_multiples_vanish(d, ONE as int);
    assert(d * ONE == ONE * d) by (nonlinear_arith);
}

/// A product of non-negative values stays non-negative.
pub proof fn lemma_mul_s_nonneg(a: int, b: int)
    requires
        0 <= a,
        0 <= b,
    ensures
        0 <= mul_s(a, b),
{
    vstd::arithmetic::mul::lemma_mul_nonnegative(a, b);
    lemma_div_is_ordered(0, a * b, ONE as int);
}

/// Bound on a product of non-negative values from bounds on the factors.
pub proof fn lemma_mul_s_upper(a: int, b: int, amax: int, bmax: int)
    requires
        0 <= a <= amax,
        0 <= b <= bmax,
        amax * bmax <= FP_MAX * ONE,
    ensures
        0 <= mul_s(a, b) <= (amax * bmax) / (ONE as int),
{
    lemma_mul_inequality(a, amax, b);
    assert(amax * b <= amax * bmax) by (nonlinear_arith)
        requires
            b <= bmax && amax >= 0,
    ;
    assert(a * b >= 0) by (nonlinear_arith)
        requires
            a >= 0 && b >= 0,
    ;
    lemma_div_is_ordered(0, a * b, ONE as int);
    lemma_div_is_ordered(a * b, amax * bmax, ONE as int);
    lemma_div_is_ordered(amax * bmax, FP_MAX * ONE, ONE as int);
    lemma_div_multiples_vanish(FP_MAX as int, ONE as int);
    assert(FP_MAX * ONE == ONE * (FP_MAX as int)) by (nonlinear_arith);
}

/// A lower bound on a product of non-negative values from lower bounds on
/// the factors.
pub proof fn lemma_mul_s_lower(a: int, amin: int, k: int, kmin: int)
    requires
        0 <= amin <= a,
        0 <= kmin <= k,
        amin * kmin <= FP_MAX * ONE,
        a * k <= FP_MAX * ONE,
    ensures
        mul_s(a, k) >= (amin * kmin) / (ONE as int),
{
    lemma_mul_inequality(amin, a, kmin);
    if a > 0 {
        vstd::arithmetic::mul::lemma_mul_left_inequality(a, kmin, k);
    } else {
        vstd::arithmetic::mul::lemma_mul_by_zero_is_zero(kmin);
        vstd::arithmetic::mul::lemma_mul_by_zero_is_zero(k);
    }
    lemma_div_is_ordered(amin * kmin, a * k, ONE as int);
    vstd::arithmetic::mul::lemma_mul_nonnegative(amin, kmin);
    lemma_div_is_ordered(0, amin * kmin, ONE as int);
    lemma_div_is_ordered(a * k, FP_MAX * ONE, ONE as int);
    lemma_div_multiples_vanish(FP_MAX as int, ONE as int);
    assert(FP_MAX * ONE == ONE * (FP_MAX as int)) by (nonlinear_arith);
}

/// Pi in 16.16 fixed point.
pub const PI_FP: i64 = 205887;

/// Two pi in 16.16 fixed point, the period of `sin_s`.
pub const TAU_FP: i64 = 411774;

/// Pi over four in 16.16 fixed point.
pub const QPI_FP: i64 = 51472;

/// Pi over two in 16.16 fixed point.
pub const HPI_FP: i64 = 102944;

/// 4 / pi^2 in 16.16 fixed point, the scale of the sine arch.
pub const INV4PI2: i64 = 26561;

/// 0.273 in 16.16 fixed point, the correction term of the arctangent.
pub const ATAN_K: i64 = 17891;

/// One arch of the sine wave: a quadratic in `m` for `m` in `[0, PI_FP]`,
/// zero at both ends and close to `ONE` at the crest.
pub open spec fn sin_arch_s(m: int) -> int {
    let p = (m * (PI_FP - m)) / (ONE as int);
    (p * INV4PI2) / (ONE as int)
}

/// Fixed-point sine of `x` (an angle in radians scaled by `ONE`):
/// periodic in `TAU_FP`, one positive and one negated arch per period.
pub open spec fn sin_s(x: int) -> int {
    let m = x % (TAU_FP as int);
    if m < PI_FP {
        sin_arch_s(m)
    } else {
        -sin_arch_s(m - PI_FP)
    }
}

fn sin_arch(m: i64) -> (r: i64)
    requires
        0 <= m <= PI_FP,
    ensures
        r == sin_arch_s(m as int),
        0 <= r <= ONE,
{
    let d: i64 = PI_FP - m;
    proof {
        vstd::arithmetic::mul::lemma_mul_upper_bound(m as int, PI_FP as int, d as int,
            PI_FP as int);
        vstd::arithmetic::mul::lemma_mul_nonnegative(m as int, d as int);
        assert(4 * (m * d) <= PI_FP * PI_FP) by (nonlinear_arith)
            requires
                d == PI_FP - m && 0 <= m <= PI_FP,
        ;
        lemma_div_is_ordered(0, m * d, ONE as int);
        lemma_div_is_ordered(m * d, 10597364192, ONE as int);
    }
    let prod: i64 = m * d;
    let p: i64 = prod / 65536;
    proof {
        lemma_div_is_ordered(0, p * INV4PI2, ONE as int);
        lemma_div_is_ordered(p * INV4PI2, 161702int * 26561int, ONE as int);
    }
    let r: i64 = (p * 26561) / 65536;
    r
}

/// Deterministic fixed-point sine.
pub fn fp_sin(x: i64) -> (r: i64)
    requires
        fp_ok(x as int),
    ensures
        r == sin_s(x as int),
        -ONE <= r <= ONE,
{
    let m: i64 = fp_emod(x, TAU_FP);
    if m < PI_FP {
        sin_arch(m)
    } else {
        -sin_arch(m - PI_FP)
    }
}

/// `r` is the integer square root of `a * ONE` (so `r / ONE` approximates
/// the real square root of `a / ONE` from below).
pub open spec fn is_sqrt_of(a: int, r: int) -> bool {
    0 <= r && r * r <= a * ONE && a * ONE < (r + 1) * (r + 1)
}

/// The fixed-point square root, defined as the unique root witness.
pub open spec fn sqrt_s(a: int) -> int {
    choose|r: int| is_sqrt_of(a, r)
}

proof fn lemma_sqrt_unique(a: int, r1: int, r2: int)
    requires
        is_sqrt_of(a, r1),
        is_sqrt_of(a, r2),
    ensures
        r1 == r2,
{
    if r1 < r2 {
        assert((r1 + 1) * (r1 + 1) <= r2 * r2) by (nonlinear_arith)
            requires
                0 <= r1 && r1 < r2,
        ;
    }
    if r2 < r1 {
        assert((r2 + 1) * (r2 + 1) <= r1 * r1) by (nonlinear_arith)
            requires
                0 <= r2 && r2 < r1,
        ;
    }
}

/// Fixed-point square root of a non-negative value, by binary search.
pub fn fp_sqrt(a: i64) -> (r: i64)
    requires
        fp_ok(a as int),
        0 <= a,
    ensures
        r == sqrt_s(a as int),
        is_sqrt_of(a as int, r as int),
        0 <= r <= 0x20_0000_0000,
{
    let n: i128 = (a as i128) * 65536;
    let mut lo: i128 = 0;
    let mut hi: i128 = 0x20_0000_0000;
    proof {
        assert(n <= FP_MAX * ONE);
    }
    while lo + 1 < hi
        invariant
            0 <= lo < hi <= 0x20_0000_0000,
            lo * lo <= n,
            n < hi * hi,
            n == a * ONE,
        decreases hi - lo,
    {
        let mid: i128 = lo + (hi - lo) / 2;
        proof {
            lemma_div_pos_is_pos(hi - lo, 2);
            lemma_div_is_ordered(hi - lo, 0x20_0000_0000, 2);
            assert((hi - lo) / 2 < hi - lo);
            vstd::arithmetic::mul::lemma_mul_upper_bound(
                lo + (hi - lo) / 2,
                0x20_0000_0000,
                lo + (hi - lo) / 2,
                0x20_0000_0000,
            );
        }
        if mid * mid <= n {
            lo = mid;
        } else {
            hi = mid;
        }
    }
    proof {
        assert(is_sqrt_of(a as int, lo as int));
        assert(exists|r: int| is_sqrt_of(a as int, r));
        lemma_sqrt_unique(a as int, lo as int, sqrt_s(a as int));
    }
    lo as i64
}

/// The arctangent of a ratio in `[0, ONE]`, in radians scaled by `ONE`:
/// a linear-plus-correction approximation, in `[0, QPI_FP + ATAN_K]`.
pub open spec fn atan01_s(z: int) -> int {
    mul_s(z, add_s(QPI_FP as int, mul_s(ATAN_K as int, sub_s(ONE as int, z))))
}

/// Fixed-point two-argument arctangent: the angle of the point `(x, y)`,
/// in `[-PI_FP, PI_FP]`, with `atan2_s(0, 0) == 0`.
pub open spec fn atan2_s(y: int, x: int) -> int {
    if x == 0 && y == 0 {
        0
    } else {
        let ax = abs_s(x);
        let ay = abs_s(y);
        let z = if ay <= ax {
            div_s(ay, ax)
        } else {
            div_s(ax, ay)
        };
        let zc = min_s(z, ONE as int);
        let base = atan01_s(zc);
        let q1 = if ay <= ax {
            base
        } else {
            HPI_FP - base
        };
        let q2 = if x < 0 {
            PI_FP - q1
        } else {
            q1
        };
        if y < 0 {
            -q2
        } else {
            q2
        }
    }
}

/// Deterministic fixed-point two-argument arctangent.
pub fn fp_atan2(y: i64, x: i64) -> (r: i64)
    requires
        fp_ok(x as int),
        fp_ok(y as int),
    ensures
        r == atan2_s(y as int, x as int),
        -PI_FP <= r <= PI_FP,
{
    if x == 0 && y == 0 {
        return 0;
    }
    let ax: i64 = fp_abs(x);
    let ay: i64 = fp_abs(y);
    let z: i64 = if ay <= ax {
        fp_div(ay, ax)
    } else {
        fp_div(ax, ay)
    };
    let zc: i64 = fp_min(z, ONE);
    let w: i64 = fp_add(QPI_FP, fp_mul(ATAN_K, fp_sub(ONE, zc)));
    proof {
        lemma_mul_s_le_factor(ATAN_K as int, sub_s(ONE as int, zc as int));
    }
    let base: i64 = fp_mul(zc, w);
    proof {
        lemma_mul_s_upper(zc as int, w as int, ONE as int, (QPI_FP + ATAN_K) as int);
        lemma_div_multiples_vanish((QPI_FP + ATAN_K) as int, ONE as int);
        assert(ONE * ((QPI_FP + ATAN_K) as int) == ((QPI_FP + ATAN_K) as int) * ONE)
            by (nonlinear_arith);
    }
    let q1: i64 = if ay <= ax {
        base
    } else {
        HPI_FP - base
    };
    let q2: i64 = if x < 0 {
        PI_FP - q1
    } else {
        q1
    };
    if y < 0 {
        -q2
    } else {
        q2
    }
}

} // verus!
