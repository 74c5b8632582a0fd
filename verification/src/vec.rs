//! Two- and three-component fixed-point vectors.
//!
//! `Vec2` carries a surface coordinate or a noise-lattice position; `Vec3`
//! carries a linear color. Views are tuples of mathematical integers, and
//! every method returns exactly what its spec mirror computes.

use vstd::prelude::*;
use crate::fixed::{
    ONE, fp_ok, add_s, mul_s, fract_s, floor_s, sqrt_s, abs_s, mix_s, fp_add, fp_mul, fp_fract,
    fp_floor, fp_sqrt, mix_fp, lemma_mul_abs_bound,
};
use vstd::arithmetic::div_mod::lemma_div_is_ordered;

verus! {

/// A 2D fixed-point vector (a surface coordinate or noise-lattice point).
#[derive(Clone, Copy, Debug)]
pub struct Vec2 {
    pub x: i64,
    pub y: i64,
}

impl View for Vec2 {
    type V = (int, int);

    open spec fn view(&self) -> (int, int) {
        (self.x as int, self.y as int)
    }
}

/// Both components lie in the fixed-point guard range.
pub open spec fn vec2_ok(p: (int, int)) -> bool {
    fp_ok(p.0) && fp_ok(p.1)
}

/// Dot product of two 2D vectors.
pub open spec fn dot_s(a: (int, int), b: (int, int)) -> int {
    add_s(mul_s(a.0, b.0), mul_s(a.1, b.1))
}

/// Euclidean length of a 2D vector.
pub open spec fn length_s(p: (int, int)) -> int {
    sqrt_s(add_s(mul_s(p.0, p.0), mul_s(p.1, p.1)))
}

/// A square never shrinks below zero, including its fixed-point scaling.
pub proof fn lemma_mul_s_square_nonneg(x: int)
    requires
        fp_ok(x),
    ensures
        0 <= mul_s(x, x),
{
    lemma_mul_abs_bound(x, abs_s(x), x, abs_s(x));
    vstd::arithmetic::mul::lemma_mul_nonnegative(abs_s(x), abs_s(x));
    vstd::arithmetic::mul::lemma_mul_cancels_negatives(x, x);
    lemma_div_is_ordered(0, x * x, ONE as int);
}

impl Vec2 {
    pub fn new(x: i64, y: i64) -> (r: Vec2)
        ensures
            r@ == (x as int, y as int),
    {
        Vec2 { x, y }
    }

    pub fn dot(&self, other: Vec2) -> (r: i64)
        requires
            vec2_ok(self@),
            vec2_ok(other@),
        ensures
            r == dot_s(self@, other@),
            fp_ok(r as int),
    {
        fp_add(fp_mul(self.x, other.x), fp_mul(self.y, other.y))
    }

    pub fn length(&self) -> (r: i64)
        requires
            vec2_ok(self@),
        ensures
            r == length_s(self@),
            0 <= r,
    {
        proof {
            lemma_mul_s_square_nonneg(self.x as int);
            lemma_mul_s_square_nonneg(self.y as int);
        }
        let sq: i64 = fp_add(fp_mul(self.x, self.x), fp_mul(self.y, self.y));
        fp_sqrt(sq)
    }

    /// Componentwise integer part: the enclosing lattice cell's corner.
    pub fn floor(&self) -> (r: Vec2)
        requires
            vec2_ok(self@),
        ensures
            r@ == (floor_s(self@.0), floor_s(self@.1)),
            vec2_ok(r@),
    {
        Vec2 { x: fp_floor(self.x), y: fp_floor(self.y) }
    }

    /// Componentwise fractional part, each component in `[0, ONE)`.
    pub fn fract(&self) -> (r: Vec2)
        requires
            vec2_ok(self@),
        ensures
            r@ == (fract_s(self@.0), fract_s(self@.1)),
            0 <= r@.0 < ONE,
            0 <= r@.1 < ONE,
            vec2_ok(r@),
    {
        Vec2 { x: fp_fract(self.x), y: fp_fract(self.y) }
    }

    /// Componentwise sum.
    pub fn plus(&self, o: Vec2) -> (r: Vec2)
        requires
            vec2_ok(self@),
            vec2_ok(o@),
        ensures
            r@ == (add_s(self@.0, o@.0), add_s(self@.1, o@.1)),
            vec2_ok(r@),
    {
        Vec2 { x: fp_add(self.x, o.x), y: fp_add(self.y, o.y) }
    }

    /// Scaling by a fixed-point factor.
    pub fn scale(&self, s: i64) -> (r: Vec2)
        requires
            vec2_ok(self@),
            fp_ok(s as int),
        ensures
            r@ == (mul_s(self@.0, s as int), mul_s(self@.1, s as int)),
            vec2_ok(r@),
    {
        Vec2 { x: fp_mul(self.x, s), y: fp_mul(self.y, s) }
    }
}

/// A 3D fixed-point vector: a linear color before quantization.
#[derive(Clone, Copy, Debug)]
pub struct Vec3 {
    pub x: i64,
    pub y: i64,
    pub z: i64,
}

impl View for Vec3 {
    type V = (int, int, int);

    open spec fn view(&self) -> (int, int, int) {
        (self.x as int, self.y as int, self.z as int)
    }
}

/// All three components lie in the fixed-point guard range.
pub open spec fn vec3_ok(c: (int, int, int)) -> bool {
    fp_ok(c.0) && fp_ok(c.1) && fp_ok(c.2)
}

impl Vec3 {
    pub fn new(x: i64, y: i64, z: i64) -> (r: Vec3)
        ensures
            r@ == (x as int, y as int, z as int),
    {
        Vec3 { x, y, z }
    }

    /// Componentwise sum.
    pub fn plus(&self, o: Vec3) -> (r: Vec3)
        requires
            vec3_ok(self@),
            vec3_ok(o@),
        ensures
            r@ == (add_s(self@.0, o@.0), add_s(self@.1, o@.1), add_s(self@.2, o@.2)),
            vec3_ok(r@),
    {
        Vec3 { x: fp_add(self.x, o.x), y: fp_add(self.y, o.y), z: fp_add(self.z, o.z) }
    }

    /// Scaling every component by a fixed-point factor.
    pub fn scale(&self, s: i64) -> (r: Vec3)
        requires
            vec3_ok(self@),
            fp_ok(s as int),
        ensures
            r@ == (mul_s(self@.0, s as int), mul_s(self@.1, s as int), mul_s(self@.2, s as int)),
            vec3_ok(r@),
    {
        Vec3 { x: fp_mul(self.x, s), y: fp_mul(self.y, s), z: fp_mul(self.z, s) }
    }
}

/// Componentwise linear interpolation between two colors.
pub open spec fn mix3_s(a: (int, int, int), b: (int, int, int), t: int) -> (int, int, int) {
    (mix_s(a.0, b.0, t), mix_s(a.1, b.1, t), mix_s(a.2, b.2, t))
}

/// Componentwise scaling of a color.
pub open spec fn scale3_s(c: (int, int, int), k: int) -> (int, int, int) {
    (mul_s(c.0, k), mul_s(c.1, k), mul_s(c.2, k))
}

/// Componentwise sum of two colors.
pub open spec fn add3_s(a: (int, int, int), b: (int, int, int)) -> (int, int, int) {
    (add_s(a.0, b.0), add_s(a.1, b.1), add_s(a.2, b.2))
}

/// Componentwise linear interpolation between two colors.
pub fn mix_vec3(a: Vec3, b: Vec3, t: i64) -> (r: Vec3)
    requires
        vec3_ok(a@),
        vec3_ok(b@),
        fp_ok(t as int),
    ensures
        r@ == mix3_s(a@, b@, t as int),
        vec3_ok(r@),
{
    Vec3 { x: mix_fp(a.x, b.x, t), y: mix_fp(a.y, b.y, t), z: mix_fp(a.z, b.z, t) }
}

} // verus!
