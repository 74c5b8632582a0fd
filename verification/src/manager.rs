//! Pipeline dispatch and the synthesis driver.
//!
//! A body name selects one of the nine hand-authored pipelines; an unknown
//! name falls back to a default pipeline for the body's category. The driver
//! rasterizes the selected pipeline into a square RGBA8 image, one quantized
//! color per pixel, alpha fully opaque.

use vstd::prelude::*;
use crate::fixed::{ONE, fp_ok};
use crate::vec::{Vec2, Vec3, vec2_ok, vec3_ok};
use crate::image::{Color, Image, to_color_s, pixel_index};
use crate::shaders::{
    sol_s, mercurio_s, venus_s, tierra_s, marte_s, jupiter_s, saturno_s, urano_s, neptuno_s,
    moon_s, sol_shader, mercurio_shader, venus_shader, tierra_shader, marte_shader,
    jupiter_shader, saturno_shader, urano_shader, neptuno_shader, moon_shader,
};
use vstd::arithmetic::div_mod::{lemma_div_is_ordered, lemma_div_nonincreasing};
use vstd::string::StringSliceAdditionalSpecFns;

verus! {

/// The category of a celestial body, the fallback dispatch key.
#[derive(Clone, Copy, Debug, PartialEq, Eq, Hash, Structural)]
pub enum BodyType {
    Star,
    RockyPlanet,
    GasGiant,
    Moon,
}

/// The closed set of surface pipelines.
#[derive(Clone, Copy, Debug, PartialEq, Eq, Structural)]
pub enum Pipeline {
    Sol,
    Mercurio,
    Venus,
    Tierra,
    Marte,
    Jupiter,
    Saturno,
    Urano,
    Neptuno,
    Luna,
}

/// String equality on character views, decided byte by byte.
fn str_eq(a: &str, b: &str) -> (r: bool)
    ensures
        r == (a@ == b@),
{
    let ab: &[u8] = a.as_bytes();
    let bb: &[u8] = b.as_bytes();
    if ab.len() != bb.len() {
        proof {
            if a@ == b@ {
                assert(a.spec_bytes() == b.spec_bytes());
            }
        }
        return false;
    }
    let n: usize = ab.len();
    let mut i: usize = 0;
    while i < n
        invariant
            0 <= i <= n,
            n == ab@.len() == bb@.len(),
            ab@ == a.spec_bytes(),
            bb@ == b.spec_bytes(),
            forall|j: int| 0 <= j < i ==> ab@[j] == bb@[j],
        decreases n - i,
    {
        if ab[i] != bb[i] {
            proof {
                if a@ == b@ {
                    assert(a.spec_bytes() == b.spec_bytes());
                }
            }
            return false;
        }
        i = i + 1;
    }
    proof {
        assert(ab@ =~= bb@);
        vstd::utf8::encode_utf8_decode_utf8(a@);
        vstd::utf8::encode_utf8_decode_utf8(b@);
    }
    true
}

/// Two-level dispatch: an exact body-name match selects one of the nine
/// hand-authored pipelines; an unknown name falls back by category
/// (star to the Sun pipeline, gas giant to the Saturn look, moon and rocky
/// planet to the cratered-rock look).
pub open spec fn pipeline_of_s(name: Seq<char>, bt: BodyType) -> Pipeline {
    if name == "Sol"@ {
        Pipeline::Sol
    } else if name == "Mercurio"@ {
        Pipeline::Mercurio
    } else if name == "Venus"@ {
        Pipeline::Venus
    } else if name == "Tierra"@ {
        Pipeline::Tierra
    } else if name == "Marte"@ {
        Pipeline::Marte
    } else if name == "Jupiter"@ {
        Pipeline::Jupiter
    } else if name == "Saturno"@ {
        Pipeline::Saturno
    } else if name == "Urano"@ {
        Pipeline::Urano
    } else if name == "Neptuno"@ {
        Pipeline::Neptuno
    } else {
        match bt {
            BodyType::Star => Pipeline::Sol,
            BodyType::Moon => Pipeline::Luna,
            BodyType::GasGiant => Pipeline::Saturno,
            BodyType::RockyPlanet => Pipeline::Luna,
        }
    }
}

/// Selects the pipeline for a body name and category.
pub fn pipeline_of(name: &str, body_type: BodyType) -> (p: Pipeline)
    ensures
        p == pipeline_of_s(name@, body_type),
{
    if str_eq(name, "Sol") {
        Pipeline::Sol
    } else if str_eq(name, "Mercurio") {
        Pipeline::Mercurio
    } else if str_eq(name, "Venus") {
        Pipeline::Venus
    } else if str_eq(name, "Tierra") {
        Pipeline::Tierra
    } else if str_eq(name, "Marte") {
        Pipeline::Marte
    } else if str_eq(name, "Jupiter") {
        Pipeline::Jupiter
    } else if str_eq(name, "Saturno") {
        Pipeline::Saturno
    } else if str_eq(name, "Urano") {
        Pipeline::Urano
    } else if str_eq(name, "Neptuno") {
        Pipeline::Neptuno
    } else {
        match body_type {
            BodyType::Star => Pipeline::Sol,
            BodyType::Moon => Pipeline::Luna,
            BodyType::GasGiant => Pipeline::Saturno,
            BodyType::RockyPlanet => Pipeline::Luna,
        }
    }
}

/// The linear color a pipeline produces at a surface coordinate and time;
/// the base color only enters the cratered-rock pipeline.
pub open spec fn pipeline_color_s(p: Pipeline, uv: (int, int), base: (int, int, int), t: int)
    -> (int, int, int) {
    match p {
        Pipeline::Sol => sol_s(uv, t),
        Pipeline::Mercurio => mercurio_s(uv, t),
        Pipeline::Venus => venus_s(uv, t),
        Pipeline::Tierra => tierra_s(uv, t),
        Pipeline::Marte => marte_s(uv, t),
        Pipeline::Jupiter => jupiter_s(uv, t),
        Pipeline::Saturno => saturno_s(uv, t),
        Pipeline::Urano => urano_s(uv, t),
        Pipeline::Neptuno => neptuno_s(uv, t),
        Pipeline::Luna => moon_s(uv, base, t),
    }
}

/// Evaluates a pipeline at one surface coordinate.
pub fn pipeline_color(p: Pipeline, uv: Vec2, base: Vec3, time: i64) -> (c: Vec3)
    requires
        vec2_ok(uv@),
        vec3_ok(base@),
        fp_ok(time as int),
    ensures
        c@ == pipeline_color_s(p, uv@, base@, time as int),
        vec3_ok(c@),
{
    match p {
        Pipeline::Sol => sol_shader(uv, time),
        Pipeline::Mercurio => mercurio_shader(uv, time),
        Pipeline::Venus => venus_shader(uv, time),
        Pipeline::Tierra => tierra_shader(uv, time),
        Pipeline::Marte => marte_shader(uv, time),
        Pipeline::Jupiter => jupiter_shader(uv, time),
        Pipeline::Saturno => saturno_shader(uv, time),
        Pipeline::Urano => urano_shader(uv, time),
        Pipeline::Neptuno => neptuno_shader(uv, time),
        Pipeline::Luna => moon_shader(uv, base, time),
    }
}

/// Every pipeline is a pure function of its coordinate, base color and
/// time: two evaluations on identical inputs are bit-identical.
pub proof fn lemma_pipeline_deterministic(
    p: Pipeline,
    uv: (int, int),
    base: (int, int, int),
    t: int,
    c1: (int, int, int),
    c2: (int, int, int),
)
    requires
        c1 == pipeline_color_s(p, uv, base, t),
        c2 == pipeline_color_s(p, uv, base, t),
    ensures
        c1 == c2,
{
}

/// Every pixel of a raster synthesized for the body named "Sol" is warm:
/// whatever the category, base color, time, raster size and pixel position,
/// the stored red byte strictly exceeds the stored blue byte.
pub proof fn lemma_sol_raster_warm(
    bt: BodyType,
    pc: Color,
    t: int,
    size: int,
    xi: int,
    yi: int,
)
    ensures
        pixel_s("Sol"@, bt, pc, t, size, xi, yi).0 > pixel_s("Sol"@, bt, pc, t, size, xi, yi).2,
{
    let uv = uv_s(size, xi, yi);
    crate::shaders::lemma_sol_warm(uv, t);
    let c = pipeline_color_s(Pipeline::Sol, uv, base_linear_s(pc), t);
    crate::image::lemma_chan_s_monotone(52920, c.0);
    crate::image::lemma_chan_s_monotone(c.2, 34602);
    assert(crate::image::chan_s(52920) == 205);
    assert(crate::image::chan_s(34602) == 134);
}

/// The 8-bit base color scaled into a linear fixed-point color.
pub open spec fn base_linear_s(pc: Color) -> (int, int, int) {
    ((pc.r * ONE) / 255, (pc.g * ONE) / 255, (pc.b * ONE) / 255)
}

/// The unit-wrapped surface coordinate of the pixel at column `xi`,
/// row `yi` in a raster of side `size`.
pub open spec fn uv_s(size: int, xi: int, yi: int) -> (int, int) {
    ((xi * ONE) / size, (yi * ONE) / size)
}

/// The RGBA bytes of the pixel at column `xi`, row `yi` of a raster of side
/// `size` synthesized for the given body name, category, base color and time.
pub open spec fn pixel_s(
    name: Seq<char>,
    bt: BodyType,
    pc: Color,
    t: int,
    size: int,
    xi: int,
    yi: int,
) -> (int, int, int, int) {
    to_color_s(pipeline_color_s(pipeline_of_s(name, bt), uv_s(size, xi, yi), base_linear_s(pc), t))
}

/// The four bytes stored for the pixel at column `xi`, row `yi`.
pub open spec fn stored_pixel_s(bytes: Seq<u8>, size: int, xi: int, yi: int)
    -> (int, int, int, int) {
    let k = pixel_index(size, xi, yi);
    (bytes[k] as int, bytes[k + 1] as int, bytes[k + 2] as int, bytes[k + 3] as int)
}

/// The synthesis driver: renders whole rasters for celestial bodies.
#[derive(Clone, Copy, Debug, PartialEq, Eq, Structural)]
pub struct ShaderManager {
}

impl ShaderManager {
    pub fn new() -> (m: ShaderManager)
    {
        ShaderManager {  }
    }

    /// Synthesizes a complete `size` by `size` RGBA8 raster for the body:
    /// every pixel holds the quantized color of the dispatched pipeline at
    /// that pixel's unit coordinate, with alpha fully opaque.
    pub fn render_to_image(
        &mut self,
        body_type: BodyType,
        planet_color: Color,
        time: i64,
        size: u32,
        name: &str,
    ) -> (img: Image)
        requires
            fp_ok(time as int),
            1 <= size <= 1024,
        ensures
            img.width == size,
            img.height == size,
            img.wf(),
            forall|yi: int, xi: int|
                0 <= yi < size && 0 <= xi < size ==> stored_pixel_s(
                    img.pixels@,
                    size as int,
                    xi,
                    yi,
                ) == pixel_s(name@, body_type, planet_color, time as int, size as int, xi, yi),
            *final(self) == *old(self),
    {
        let cv: Vec3 = Vec3::new(
            (planet_color.r as i64) * 65536 / 255,
            (planet_color.g as i64) * 65536 / 255,
            (planet_color.b as i64) * 65536 / 255,
        );
        let p: Pipeline = pipeline_of(name, body_type);
        let mut pixels: Vec<u8> = Vec::new();
        let mut y: u32 = 0;
        while y < size
            invariant
                0 <= y <= size,
                1 <= size <= 1024,
                fp_ok(time as int),
                cv@ == base_linear_s(planet_color),
                vec3_ok(cv@),
                p == pipeline_of_s(name@, body_type),
                pixels@.len() == 4 * ((y as int) * (size as int)),
                forall|yi: int, xi: int|
                    0 <= yi < y && 0 <= xi < size ==> stored_pixel_s(
                        pixels@,
                        size as int,
                        xi,
                        yi,
                    ) == pixel_s(
                        name@,
                        body_type,
                        planet_color,
                        time as int,
                        size as int,
                        xi,
                        yi,
                    ),
            decreases size - y,
        {
            let mut x: u32 = 0;
            while x < size
                invariant
                    0 <= x <= size,
                    0 <= y < size,
                    1 <= size <= 1024,
                    fp_ok(time as int),
                    cv@ == base_linear_s(planet_color),
                    vec3_ok(cv@),
                    p == pipeline_of_s(name@, body_type),
                    pixels@.len() == 4 * ((y as int) * (size as int) + (x as int)),
                    forall|yi: int, xi: int|
                        0 <= yi < y && 0 <= xi < size ==> stored_pixel_s(
                            pixels@,
                            size as int,
                            xi,
                            yi,
                        ) == pixel_s(
                            name@,
                            body_type,
                            planet_color,
                            time as int,
                            size as int,
                            xi,
                            yi,
                        ),
                    forall|xi: int|
                        0 <= xi < x ==> stored_pixel_s(pixels@, size as int, xi, y as int)
                            == pixel_s(
                            name@,
                            body_type,
                            planet_color,
                            time as int,
                            size as int,
                            xi,
                            y as int,
                        ),
                decreases size - x,
            {
                proof {
                    lemma_div_is_ordered(0, (x as int) * ONE, size as int);
                    lemma_div_is_ordered(0, (y as int) * ONE, size as int);
                    lemma_div_nonincreasing((x as int) * ONE, size as int);
                    lemma_div_nonincreasing((y as int) * ONE, size as int);
                }
                let uv: Vec2 = Vec2::new(
                    (x as i64) * 65536 / (size as i64),
                    (y as i64) * 65536 / (size as i64),
                );
                let c: Vec3 = pipeline_color(p, uv, cv, time);
                let col: Color = c.to_color();
                let ghost prev: Seq<u8> = pixels@;
                pixels.push(col.r);
                pixels.push(col.g);
                pixels.push(col.b);
                pixels.push(col.a);
                proof {
                    let sz: int = size as int;
                    let yy: int = y as int;
                    let xx: int = x as int;
                    assert forall|yi: int, xi: int|
                        0 <= yi < yy && 0 <= xi < sz implies stored_pixel_s(
                        pixels@,
                        sz,
                        xi,
                        yi,
                    ) == pixel_s(name@, body_type, planet_color, time as int, sz, xi, yi) by {
                        vstd::arithmetic::mul::lemma_mul_inequality(yi + 1, yy, sz);
                        assert((yi + 1) * sz == yi * sz + sz) by (nonlinear_arith);
                        assert(stored_pixel_s(pixels@, sz, xi, yi) == stored_pixel_s(
                            prev,
                            sz,
                            xi,
                            yi,
                        ));
                        assert(stored_pixel_s(prev, sz, xi, yi) == pixel_s(
                            name@,
                            body_type,
                            planet_color,
                            time as int,
                            sz,
                            xi,
                            yi,
                        ));
                    }
                    assert forall|xi: int|
                        0 <= xi < xx implies stored_pixel_s(pixels@, sz, xi, yy) == pixel_s(
                        name@,
                        body_type,
                        planet_color,
                        time as int,
                        sz,
                        xi,
                        yy,
                    ) by {
                        assert(stored_pixel_s(pixels@, sz, xi, yy) == stored_pixel_s(
                            prev,
                            sz,
                            xi,
                            yy,
                        ));
                        assert(stored_pixel_s(prev, sz, xi, yy) == pixel_s(
                            name@,
                            body_type,
                            planet_color,
                            time as int,
                            sz,
                            xi,
                            yy,
                        ));
                    }
                    assert(stored_pixel_s(pixels@, sz, xx, yy) == pixel_s(
                        name@,
                        body_type,
                        planet_color,
                        time as int,
                        sz,
                        xx,
                        yy,
                    ));
                }
                x = x + 1;
            }
            proof {
                assert(4 * ((y as int) * (size as int) + (size as int)) == 4 * ((y as int + 1)
                    * (size as int))) by (nonlinear_arith);
            }
            y = y + 1;
        }
        proof {
            assert(4 * ((size as int) * (size as int)) == 4 * (size as int) * (size as int))
                by (nonlinear_arith);
        }
        Image { width: size, height: size, pixels }
    }

    /// Renders the default 128 by 128 raster for a body category alone
    /// (no name match: the category fallback pipeline is used).
    pub fn create_texture_for_body(
        &mut self,
        body_type: BodyType,
        planet_color: Color,
        time: i64,
    ) -> (img: Image)
        requires
            fp_ok(time as int),
        ensures
            img.width == 128,
            img.height == 128,
            img.wf(),
            forall|yi: int, xi: int|
                0 <= yi < 128 && 0 <= xi < 128 ==> stored_pixel_s(img.pixels@, 128, xi, yi)
                    == pixel_s(""@, body_type, planet_color, time as int, 128, xi, yi),
            *final(self) == *old(self),
    {
        self.render_to_image(body_type, planet_color, time, 128, "")
    }

    /// Renders the default 128 by 128 raster for a named body.
    pub fn create_texture_for_body_named(
        &mut self,
        body_type: BodyType,
        planet_color: Color,
        time: i64,
        name: &str,
    ) -> (img: Image)
        requires
            fp_ok(time as int),
        ensures
            img.width == 128,
            img.height == 128,
            img.wf(),
            forall|yi: int, xi: int|
                0 <= yi < 128 && 0 <= xi < 128 ==> stored_pixel_s(img.pixels@, 128, xi, yi)
                    == pixel_s(name@, body_type, planet_color, time as int, 128, xi, yi),
            *final(self) == *old(self),
    {
        self.render_to_image(body_type, planet_color, time, 128, name)
    }
}

} // verus!
