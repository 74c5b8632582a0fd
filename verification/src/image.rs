//! Quantization of linear colors and the raster image buffer.
//!
//! A linear color component (16.16 fixed point) is clamped into `[0, ONE]`
//! and scaled to an 8-bit channel; a raster is a square RGBA8 buffer with
//! the alpha channel fixed at fully opaque.

use vstd::prelude::*;
use crate::fixed::{ONE, clamp01_s, fp_clamp01};
use crate::vec::Vec3;
use vstd::arithmetic::div_mod::{lemma_div_is_ordered, lemma_div_multiples_vanish, lemma_div_of0};
use vstd::arithmetic::mul::lemma_mul_by_zero_is_zero;

verus! {

/// An 8-bit RGBA color.
#[derive(Clone, Copy, Debug, PartialEq, Eq, Structural)]
pub struct Color {
    pub r: u8,
    pub g: u8,
    pub b: u8,
    pub a: u8,
}

impl Color {
    pub fn new(r: u8, g: u8, b: u8, a: u8) -> (c: Color)
        ensures
            c == (Color { r, g, b, a }),
    {
        Color { r, g, b, a }
    }
}

/// Quantization of one linear component: clamp into `[0, ONE]`, then scale
/// to `[0, 255]`, truncating toward zero.
pub open spec fn chan_s(x: int) -> int {
    (clamp01_s(x) * 255) / (ONE as int)
}

/// Componentwise quantization of a linear color, alpha fully opaque.
pub open spec fn to_color_s(c: (int, int, int)) -> (int, int, int, int) {
    (chan_s(c.0), chan_s(c.1), chan_s(c.2), 255)
}

/// A quantized channel is a byte.
pub proof fn lemma_chan_s_bounds(x: int)
    ensures
        0 <= chan_s(x) <= 255,
{
    let o: int = ONE as int;
    let c: int = clamp01_s(x);
    vstd::arithmetic::mul::lemma_mul_nonnegative(c, 255);
    lemma_div_is_ordered(0, c * 255, o);
    vstd::arithmetic::mul::lemma_mul_inequality(c, o, 255);
    lemma_div_is_ordered(c * 255, o * 255, o);
    lemma_div_multiples_vanish(255, o);
}

/// Quantization clamps first: a component outside `[0, ONE]` yields exactly
/// the byte of its clamped counterpart, so no overflow or underflow artifact
/// can appear.
pub proof fn lemma_chan_clamp_idempotent(x: int)
    ensures
        chan_s(x) == chan_s(clamp01_s(x)),
        x >= ONE ==> chan_s(x) == 255,
        x <= 0 ==> chan_s(x) == 0,
{
    let o: int = ONE as int;
    assert(clamp01_s(clamp01_s(x)) == clamp01_s(x));
    if x >= ONE {
        lemma_div_multiples_vanish(255, o);
        assert(o * 255 == 255 * o) by (nonlinear_arith);
    }
    if x <= 0 {
        lemma_mul_by_zero_is_zero(255);
        lemma_div_of0(o);
    }
}

/// Quantization is monotone in the linear component.
pub proof fn lemma_chan_s_monotone(x: int, y: int)
    requires
        x <= y,
    ensures
        chan_s(x) <= chan_s(y),
{
    vstd::arithmetic::mul::lemma_mul_inequality(clamp01_s(x), clamp01_s(y), 255);
    lemma_div_is_ordered(clamp01_s(x) * 255, clamp01_s(y) * 255, ONE as int);
}

fn quantize_channel(x: i64) -> (r: u8)
    ensures
        r as int == chan_s(x as int),
{
    proof {
        lemma_chan_s_bounds(x as int);
    }
    let c: i64 = fp_clamp01(x);
    let v: i64 = (c * 255) / 65536;
    proof {
        vstd::arithmetic::mul::lemma_mul_nonnegative(c as int, 255);
        lemma_div_is_ordered(0, c as int * 255, ONE as int);
    }
    v as u8
}

impl Vec3 {
    /// Quantization of a linear color into 8-bit RGBA with full opacity.
    pub fn to_color(&self) -> (c: Color)
        ensures
            (c.r as int, c.g as int, c.b as int, c.a as int) == to_color_s(self@),
    {
        Color {
            r: quantize_channel(self.x),
            g: quantize_channel(self.y),
            b: quantize_channel(self.z),
            a: 255,
        }
    }
}

/// Byte offset of the pixel at column `x`, row `y` in a row-major square
/// RGBA raster of side `size`.
pub open spec fn pixel_index(size: int, x: int, y: int) -> int {
    4 * (y * size + x)
}

/// A square RGBA8 raster image.
pub struct Image {
    pub width: u32,
    pub height: u32,
    pub pixels: Vec<u8>,
}

impl Image {
    /// The buffer holds exactly one RGBA pixel per cell.
    pub open spec fn wf(&self) -> bool {
        self.pixels@.len() == 4 * (self.width as int) * (self.height as int)
    }
}

} // verus!
