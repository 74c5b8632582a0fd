//! The per-body surface pipelines.
//!
//! Each pipeline is a pure function from a surface coordinate and a time
//! value to a linear color, layered from noise fields, soft thresholds and
//! color ramps. Every numeric breakpoint is in 16.16 fixed point. Each
//! executable pipeline returns exactly what its spec mirror computes, so two
//! invocations on the same inputs are bit-identical by contract.

use vstd::prelude::*;
use crate::fixed::{
    ONE, fp_ok, clamp01_s, add_s, sub_s, mul_s, div_s, max_s, abs_s, sin_s, sqrt_s, atan2_s,
    fp_add, fp_sub, fp_mul, fp_div, fp_max, fp_abs, fp_clamp01, fp_sin, fp_sqrt, fp_atan2,
    lemma_mul_s_nonneg,
};
use crate::vec::{
    Vec2, Vec3, vec2_ok, vec3_ok, mix3_s, scale3_s, add3_s, mix_vec3, lemma_mul_s_square_nonneg,
};
use crate::noise::{noise_s, fbm_s, smoothstep_s, noise, fbm, smoothstep};

verus! {

/// Venus: two layered cloud fields and a swirl, thresholded into an
/// atmosphere value, tinted through an orange ramp and dimmed slightly.
#[verifier::opaque]
pub open spec fn venus_s(uv: (int, int), t: int) -> (int, int, int) {
    let clouds1 = fbm_s(
        (add_s(mul_s(uv.0, 196608), mul_s(t, 3277)), add_s(mul_s(uv.1, 262144), mul_s(t, 1311))),
        5,
    );
    let clouds2 = fbm_s(
        (sub_s(mul_s(uv.0, 393216), mul_s(t, 1966)), sub_s(mul_s(uv.1, 327680), mul_s(t, 2621))),
        4,
    );
    let swirl = noise_s(
        (add_s(mul_s(uv.0, 131072), mul_s(clouds1, 131072)), add_s(mul_s(uv.1, 131072), mul_s(t, 655))),
    );
    let atmosphere = clamp01_s(
        add_s(add_s(mul_s(clouds1, 32768), mul_s(clouds2, 19661)), mul_s(swirl, 13107)),
    );
    let bands = mul_s(
        add_s(mul_s(sin_s(add_s(mul_s(uv.1, 786432), mul_s(clouds1, 196608))), 32768), 32768),
        19661,
    );
    let mix_val = clamp01_s(add_s(atmosphere, bands));
    let color = if mix_val < 32768 {
        mix3_s((62259, 49152, 19661), (55706, 36045, 9830), div_s(mix_val, 32768))
    } else {
        mix3_s((55706, 36045, 9830), (45875, 26214, 6554), div_s(sub_s(mix_val, 32768), 32768))
    };
    scale3_s(color, 62259)
}

/// Venus surface color at `uv` and time `t`.
#[verifier::rlimit(100)]
pub fn venus_shader(uv: Vec2, time: i64) -> (c: Vec3)
    requires
        vec2_ok(uv@),
        fp_ok(time as int),
    ensures
        c@ == venus_s(uv@, time as int),
        vec3_ok(c@),
{
    proof {
        reveal(venus_s);
    }
    let clouds1: i64 = fbm(
        Vec2::new(
            fp_add(fp_mul(uv.x, 196608), fp_mul(time, 3277)),
            fp_add(fp_mul(uv.y, 262144), fp_mul(time, 1311)),
        ),
        5,
    );
    let clouds2: i64 = fbm(
        Vec2::new(
            fp_sub(fp_mul(uv.x, 393216), fp_mul(time, 1966)),
            fp_sub(fp_mul(uv.y, 327680), fp_mul(time, 2621)),
        ),
        4,
    );
    let swirl: i64 = noise(
        Vec2::new(
            fp_add(fp_mul(uv.x, 131072), fp_mul(clouds1, 131072)),
            fp_add(fp_mul(uv.y, 131072), fp_mul(time, 655)),
        ),
    );
    let atmosphere: i64 = fp_clamp01(
        fp_add(fp_add(fp_mul(clouds1, 32768), fp_mul(clouds2, 19661)), fp_mul(swirl, 13107)),
    );
    let bands: i64 = fp_mul(
        fp_add(fp_mul(fp_sin(fp_add(fp_mul(uv.y, 786432), fp_mul(clouds1, 196608))), 32768), 32768),
        19661,
    );
    let mix_val: i64 = fp_clamp01(fp_add(atmosphere, bands));
    let color: Vec3 = if mix_val < 32768 {
        mix_vec3(
            Vec3::new(62259, 49152, 19661),
            Vec3::new(55706, 36045, 9830),
            fp_div(mix_val, 32768),
        )
    } else {
        mix_vec3(
            Vec3::new(55706, 36045, 9830),
            Vec3::new(45875, 26214, 6554),
            fp_div(fp_sub(mix_val, 32768), 32768),
        )
    };
    color.scale(62259)
}

/// Jupiter: sine latitude bands over a distorted vertical coordinate, plus
/// an anisotropic elliptical storm spot centered at (0.65, 0.55) that blends
/// toward a red hue as the ellipse distance shrinks.
#[verifier::opaque]
pub open spec fn jupiter_s(uv: (int, int), t: int) -> (int, int, int) {
    let band_y = add_s(
        uv.1,
        mul_s(fbm_s((add_s(mul_s(uv.0, 524288), mul_s(t, 1311)), mul_s(uv.1, 131072)), 3), 5243),
    );
    let band = add_s(mul_s(sin_s(mul_s(band_y, 1638400)), 32768), 32768);
    let turb = mul_s(
        fbm_s((add_s(mul_s(uv.0, 786432), mul_s(t, 1966)), mul_s(uv.1, 524288)), 4),
        13107,
    );
    let mix_val = clamp01_s(add_s(band, turb));
    let color = if mix_val < 32768 {
        mix3_s((55706, 49152, 39322), (45875, 36045, 26214), div_s(mix_val, 32768))
    } else {
        mix3_s((45875, 36045, 26214), (36045, 26214, 19661), div_s(sub_s(mix_val, 32768), 32768))
    };
    let sx = sub_s(uv.0, 42598);
    let sy = sub_s(uv.1, 36045);
    let spot_dist = sqrt_s(add_s(mul_s(mul_s(sx, sx), 262144), mul_s(mul_s(sy, sy), 1048576)));
    if spot_dist < 9830 {
        let swirl = mul_s(
            noise_s((add_s(mul_s(sx, 1966080), mul_s(t, 32768)), mul_s(sy, 1966080))),
            13107,
        );
        mix3_s(
            color,
            scale3_s((52429, 19661, 13107), add_s(65536, swirl)),
            sub_s(65536, div_s(spot_dist, 9830)),
        )
    } else {
        color
    }
}

/// Jupiter surface color at `uv` and time `t`.
#[verifier::rlimit(100)]
pub fn jupiter_shader(uv: Vec2, time: i64) -> (c: Vec3)
    requires
        vec2_ok(uv@),
        fp_ok(time as int),
    ensures
        c@ == jupiter_s(uv@, time as int),
        vec3_ok(c@),
{
    proof {
        reveal(jupiter_s);
    }
    let band_y: i64 = fp_add(
        uv.y,
        fp_mul(
            fbm(
                Vec2::new(fp_add(fp_mul(uv.x, 524288), fp_mul(time, 1311)), fp_mul(uv.y, 131072)),
                3,
            ),
            5243,
        ),
    );
    let band: i64 = fp_add(fp_mul(fp_sin(fp_mul(band_y, 1638400)), 32768), 32768);
    let turb: i64 = fp_mul(
        fbm(Vec2::new(fp_add(fp_mul(uv.x, 786432), fp_mul(time, 1966)), fp_mul(uv.y, 524288)), 4),
        13107,
    );
    let mix_val: i64 = fp_clamp01(fp_add(band, turb));
    let color: Vec3 = if mix_val < 32768 {
        mix_vec3(
            Vec3::new(55706, 49152, 39322),
            Vec3::new(45875, 36045, 26214),
            fp_div(mix_val, 32768),
        )
    } else {
        mix_vec3(
            Vec3::new(45875, 36045, 26214),
            Vec3::new(36045, 26214, 19661),
            fp_div(fp_sub(mix_val, 32768), 32768),
        )
    };
    let sx: i64 = fp_sub(uv.x, 42598);
    let sy: i64 = fp_sub(uv.y, 36045);
    proof {
        lemma_mul_s_square_nonneg(sx as int);
        lemma_mul_s_square_nonneg(sy as int);
        lemma_mul_s_nonneg(mul_s(sx as int, sx as int), 262144);
        lemma_mul_s_nonneg(mul_s(sy as int, sy as int), 1048576);
    }
    let spot_dist: i64 = fp_sqrt(
        fp_add(fp_mul(fp_mul(sx, sx), 262144), fp_mul(fp_mul(sy, sy), 1048576)),
    );
    if spot_dist < 9830 {
        let swirl: i64 = fp_mul(
            noise(Vec2::new(fp_add(fp_mul(sx, 1966080), fp_mul(time, 32768)), fp_mul(sy, 1966080))),
            13107,
        );
        mix_vec3(
            color,
            Vec3::new(52429, 19661, 13107).scale(fp_add(65536, swirl)),
            fp_sub(65536, fp_div(spot_dist, 9830)),
        )
    } else {
        color
    }
}

/// Saturn: softer sine bands over a noise-distorted vertical coordinate,
/// with the same ramp structure as Jupiter and no storm spot.
#[verifier::opaque]
pub open spec fn saturno_s(uv: (int, int), t: int) -> (int, int, int) {
    let band_y = add_s(
        uv.1,
        mul_s(noise_s((add_s(mul_s(uv.0, 393216), mul_s(t, 983)), mul_s(uv.1, 196608))), 3932),
    );
    let band = add_s(mul_s(sin_s(mul_s(band_y, 1310720)), 32768), 32768);
    let turb = mul_s(
        fbm_s((add_s(mul_s(uv.0, 524288), mul_s(t, 1311)), mul_s(uv.1, 393216)), 3),
        9830,
    );
    let mix_val = clamp01_s(add_s(band, turb));
    if mix_val < 32768 {
        mix3_s((62259, 57672, 45875), (55706, 49152, 36045), div_s(mix_val, 32768))
    } else {
        mix3_s((55706, 49152, 36045), (49152, 42598, 29491), div_s(sub_s(mix_val, 32768), 32768))
    }
}

/// Saturn surface color at `uv` and time `t`.
#[verifier::rlimit(100)]
pub fn saturno_shader(uv: Vec2, time: i64) -> (c: Vec3)
    requires
        vec2_ok(uv@),
        fp_ok(time as int),
    ensures
        c@ == saturno_s(uv@, time as int),
        vec3_ok(c@),
{
    proof {
        reveal(saturno_s);
    }
    let band_y: i64 = fp_add(
        uv.y,
        fp_mul(
            noise(Vec2::new(fp_add(fp_mul(uv.x, 393216), fp_mul(time, 983)), fp_mul(uv.y, 196608))),
            3932,
        ),
    );
    let band: i64 = fp_add(fp_mul(fp_sin(fp_mul(band_y, 1310720)), 32768), 32768);
    let turb: i64 = fp_mul(
        fbm(Vec2::new(fp_add(fp_mul(uv.x, 524288), fp_mul(time, 1311)), fp_mul(uv.y, 393216)), 3),
        9830,
    );
    let mix_val: i64 = fp_clamp01(fp_add(band, turb));
    if mix_val < 32768 {
        mix_vec3(
            Vec3::new(62259, 57672, 45875),
            Vec3::new(55706, 49152, 36045),
            fp_div(mix_val, 32768),
        )
    } else {
        mix_vec3(
            Vec3::new(55706, 49152, 36045),
            Vec3::new(49152, 42598, 29491),
            fp_div(fp_sub(mix_val, 32768), 32768),
        )
    }
}

/// Uranus: a near-uniform blue-green atmosphere with faint bands.
#[verifier::opaque]
pub open spec fn urano_s(uv: (int, int), t: int) -> (int, int, int) {
    let band = mul_s(
        add_s(mul_s(sin_s(add_s(mul_s(uv.1, 983040), mul_s(t, 655))), 32768), 32768),
        6554,
    );
    let atm = mul_s(
        fbm_s((add_s(mul_s(uv.0, 262144), mul_s(t, 655)), mul_s(uv.1, 262144)), 3),
        6554,
    );
    mix3_s((39322, 55706, 58982), (32768, 49152, 53740), clamp01_s(add_s(band, atm)))
}

/// Uranus surface color at `uv` and time `t`.
#[verifier::rlimit(100)]
pub fn urano_shader(uv: Vec2, time: i64) -> (c: Vec3)
    requires
        vec2_ok(uv@),
        fp_ok(time as int),
    ensures
        c@ == urano_s(uv@, time as int),
        vec3_ok(c@),
{
    proof {
        reveal(urano_s);
    }
    let band: i64 = fp_mul(
        fp_add(fp_mul(fp_sin(fp_add(fp_mul(uv.y, 983040), fp_mul(time, 655))), 32768), 32768),
        6554,
    );
    let atm: i64 = fp_mul(
        fbm(Vec2::new(fp_add(fp_mul(uv.x, 262144), fp_mul(time, 655)), fp_mul(uv.y, 262144)), 3),
        6554,
    );
    mix_vec3(
        Vec3::new(39322, 55706, 58982),
        Vec3::new(32768, 49152, 53740),
        fp_clamp01(fp_add(band, atm)),
    )
}

/// Neptune: intense blue bands plus a dark elliptical storm centered at
/// (0.4, 0.45) that darkens the ramp's deepest color.
#[verifier::opaque]
pub open spec fn neptuno_s(uv: (int, int), t: int) -> (int, int, int) {
    let band = add_s(mul_s(sin_s(add_s(mul_s(uv.1, 1179648), mul_s(t, 1311))), 32768), 32768);
    let turb = mul_s(
        fbm_s((add_s(mul_s(uv.0, 655360), mul_s(t, 2621)), mul_s(uv.1, 524288)), 4),
        13107,
    );
    let mix_val = clamp01_s(add_s(mul_s(band, 32768), turb));
    let color = if mix_val < 32768 {
        mix3_s((13107, 26214, 58982), (9830, 19661, 49152), div_s(mix_val, 32768))
    } else {
        mix3_s((9830, 19661, 49152), (6554, 13107, 39322), div_s(sub_s(mix_val, 32768), 32768))
    };
    let sx = sub_s(uv.0, 26214);
    let sy = sub_s(uv.1, 29491);
    let spot_dist = sqrt_s(add_s(mul_s(mul_s(sx, sx), 196608), mul_s(mul_s(sy, sy), 786432)));
    if spot_dist < 7864 {
        mix3_s(color, scale3_s((6554, 13107, 39322), 45875), sub_s(65536, div_s(spot_dist, 7864)))
    } else {
        color
    }
}

/// Neptune surface color at `uv` and time `t`.
#[verifier::rlimit(100)]
pub fn neptuno_shader(uv: Vec2, time: i64) -> (c: Vec3)
    requires
        vec2_ok(uv@),
        fp_ok(time as int),
    ensures
        c@ == neptuno_s(uv@, time as int),
        vec3_ok(c@),
{
    proof {
        reveal(neptuno_s);
    }
    let band: i64 = fp_add(
        fp_mul(fp_sin(fp_add(fp_mul(uv.y, 1179648), fp_mul(time, 1311))), 32768),
        32768,
    );
    let turb: i64 = fp_mul(
        fbm(Vec2::new(fp_add(fp_mul(uv.x, 655360), fp_mul(time, 2621)), fp_mul(uv.y, 524288)), 4),
        13107,
    );
    let mix_val: i64 = fp_clamp01(fp_add(fp_mul(band, 32768), turb));
    let color: Vec3 = if mix_val < 32768 {
        mix_vec3(
            Vec3::new(13107, 26214, 58982),
            Vec3::new(9830, 19661, 49152),
            fp_div(mix_val, 32768),
        )
    } else {
        mix_vec3(
            Vec3::new(9830, 19661, 49152),
            Vec3::new(6554, 13107, 39322),
            fp_div(fp_sub(mix_val, 32768), 32768),
        )
    };
    let sx: i64 = fp_sub(uv.x, 26214);
    let sy: i64 = fp_sub(uv.y, 29491);
    proof {
        lemma_mul_s_square_nonneg(sx as int);
        lemma_mul_s_square_nonneg(sy as int);
        lemma_mul_s_nonneg(mul_s(sx as int, sx as int), 196608);
        lemma_mul_s_nonneg(mul_s(sy as int, sy as int), 786432);
    }
    let spot_dist: i64 = fp_sqrt(
        fp_add(fp_mul(fp_mul(sx, sx), 196608), fp_mul(fp_mul(sy, sy), 786432)),
    );
    if spot_dist < 7864 {
        mix_vec3(
            color,
            Vec3::new(6554, 13107, 39322).scale(45875),
            fp_sub(65536, fp_div(spot_dist, 7864)),
        )
    } else {
        color
    }
}

/// The Sun: turbulent plasma bands distorted by two fractal fields, a radial
/// glow fading over the ellipse distance, and flare flashes where a fine
/// noise field exceeds 0.7.
#[verifier::opaque]
pub open spec fn sol_s(uv: (int, int), t: int) -> (int, int, int) {
    let turb1 = fbm_s(
        (add_s(mul_s(uv.0, 262144), mul_s(t, 5243)), sub_s(mul_s(uv.1, 262144), mul_s(t, 3277))),
        4,
    );
    let turb2 = fbm_s(
        (sub_s(mul_s(uv.0, 524288), mul_s(t, 7864)), add_s(mul_s(uv.1, 524288), mul_s(t, 6554))),
        3,
    );
    let band_distort = add_s(mul_s(turb1, 98304), mul_s(turb2, 52429));
    let bands = add_s(
        mul_s(sin_s(mul_s(add_s(mul_s(uv.1, 524288), band_distort), 205887)), 32768),
        32768,
    );
    let cx = sub_s(uv.0, 32768);
    let cy = sub_s(uv.1, 32768);
    let angle = atan2_s(cy, cx);
    let dist = sqrt_s(add_s(mul_s(cx, cx), mul_s(cy, cy)));
    let swirl = noise_s(
        (add_s(mul_s(angle, 131072), mul_s(t, 6554)), add_s(mul_s(dist, 655360), mul_s(turb1, 196608))),
    );
    let plasma = fbm_s(
        (
            add_s(add_s(mul_s(uv.0, 393216), mul_s(swirl, 131072)), mul_s(t, 9830)),
            sub_s(add_s(mul_s(uv.1, 393216), mul_s(turb2, 131072)), mul_s(t, 6554)),
        ),
        5,
    );
    let color_mix = clamp01_s(
        add_s(add_s(mul_s(bands, 19661), mul_s(plasma, 26214)), mul_s(swirl, 19661)),
    );
    let color = if color_mix < 16384 {
        mix3_s((65536, 62259, 19661), (65536, 52429, 6554), div_s(color_mix, 16384))
    } else if color_mix < 32768 {
        mix3_s((65536, 52429, 6554), (65536, 32768, 3277), div_s(sub_s(color_mix, 16384), 16384))
    } else if color_mix < 49152 {
        mix3_s((65536, 32768, 3277), (62259, 19661, 1311), div_s(sub_s(color_mix, 32768), 16384))
    } else {
        mix3_s((62259, 19661, 1311), (65536, 32768, 3277), div_s(sub_s(color_mix, 49152), 16384))
    };
    let glow = sub_s(65536, smoothstep_s(0, 52429, mul_s(dist, 98304)));
    let fc = scale3_s(color, add_s(55706, mul_s(glow, 16384)));
    let flare = noise_s(
        (add_s(mul_s(uv.0, 1310720), mul_s(t, 19661)), sub_s(mul_s(uv.1, 1310720), mul_s(t, 13107))),
    );
    if flare > 45875 {
        scale3_s(fc, add_s(65536, mul_s(sub_s(flare, 45875), 131072)))
    } else {
        fc
    }
}

/// Sun surface color at `uv` and time `t`.
#[verifier::rlimit(100)]
pub fn sol_shader(uv: Vec2, time: i64) -> (c: Vec3)
    requires
        vec2_ok(uv@),
        fp_ok(time as int),
    ensures
        c@ == sol_s(uv@, time as int),
        vec3_ok(c@),
{
    proof {
        reveal(sol_s);
    }
    let turb1: i64 = fbm(
        Vec2::new(
            fp_add(fp_mul(uv.x, 262144), fp_mul(time, 5243)),
            fp_sub(fp_mul(uv.y, 262144), fp_mul(time, 3277)),
        ),
        4,
    );
    let turb2: i64 = fbm(
        Vec2::new(
            fp_sub(fp_mul(uv.x, 524288), fp_mul(time, 7864)),
            fp_add(fp_mul(uv.y, 524288), fp_mul(time, 6554)),
        ),
        3,
    );
    let band_distort: i64 = fp_add(fp_mul(turb1, 98304), fp_mul(turb2, 52429));
    let bands: i64 = fp_add(
        fp_mul(fp_sin(fp_mul(fp_add(fp_mul(uv.y, 524288), band_distort), 205887)), 32768),
        32768,
    );
    let cx: i64 = fp_sub(uv.x, 32768);
    let cy: i64 = fp_sub(uv.y, 32768);
    let angle: i64 = fp_atan2(cy, cx);
    proof {
        lemma_mul_s_square_nonneg(cx as int);
        lemma_mul_s_square_nonneg(cy as int);
    }
    let dist: i64 = fp_sqrt(fp_add(fp_mul(cx, cx), fp_mul(cy, cy)));
    let swirl: i64 = noise(
        Vec2::new(
            fp_add(fp_mul(angle, 131072), fp_mul(time, 6554)),
            fp_add(fp_mul(dist, 655360), fp_mul(turb1, 196608)),
        ),
    );
    let plasma: i64 = fbm(
        Vec2::new(
            fp_add(fp_add(fp_mul(uv.x, 393216), fp_mul(swirl, 131072)), fp_mul(time, 9830)),
            fp_sub(fp_add(fp_mul(uv.y, 393216), fp_mul(turb2, 131072)), fp_mul(time, 6554)),
        ),
        5,
    );
    let color_mix: i64 = fp_clamp01(
        fp_add(fp_add(fp_mul(bands, 19661), fp_mul(plasma, 26214)), fp_mul(swirl, 19661)),
    );
    let color: Vec3 = if color_mix < 16384 {
        mix_vec3(
            Vec3::new(65536, 62259, 19661),
            Vec3::new(65536, 52429, 6554),
            fp_div(color_mix, 16384),
        )
    } else if color_mix < 32768 {
        mix_vec3(
            Vec3::new(65536, 52429, 6554),
            Vec3::new(65536, 32768, 3277),
            fp_div(fp_sub(color_mix, 16384), 16384),
        )
    } else if color_mix < 49152 {
        mix_vec3(
            Vec3::new(65536, 32768, 3277),
            Vec3::new(62259, 19661, 1311),
            fp_div(fp_sub(color_mix, 32768), 16384),
        )
    } else {
        mix_vec3(
            Vec3::new(62259, 19661, 1311),
            Vec3::new(65536, 32768, 3277),
            fp_div(fp_sub(color_mix, 49152), 16384),
        )
    };
    let glow: i64 = fp_sub(65536, smoothstep(0, 52429, fp_mul(dist, 98304)));
    let fc: Vec3 = color.scale(fp_add(55706, fp_mul(glow, 16384)));
    let flare: i64 = noise(
        Vec2::new(
            fp_add(fp_mul(uv.x, 1310720), fp_mul(time, 19661)),
            fp_sub(fp_mul(uv.y, 1310720), fp_mul(time, 13107)),
        ),
    );
    if flare > 45875 {
        fc.scale(fp_add(65536, fp_mul(fp_sub(flare, 45875), 131072)))
    } else {
        fc
    }
}

/// The blend ratio of a quarter-width color ramp segment stays in `[0, ONE]`.
proof fn lemma_ramp_t_bounds(d: int)
    requires
        0 <= d <= 16384,
    ensures
        0 <= div_s(d, 16384) <= ONE,
{
    let o: int = ONE as int;
    vstd::arithmetic::mul::lemma_mul_nonnegative(d, o);
    vstd::arithmetic::mul::lemma_mul_inequality(d, 16384, o);
    vstd::arithmetic::div_mod::lemma_div_is_ordered(0, d * o, 16384);
    vstd::arithmetic::div_mod::lemma_div_is_ordered(d * o, 16384 * o, 16384);
    vstd::arithmetic::div_mod::lemma_div_multiples_vanish(o, 16384);
}

/// Every Sun pixel is warm: whatever the coordinate and the time, the red
/// component of the Sun pipeline strictly exceeds the blue component.
#[verifier::rlimit(100)]
pub proof fn lemma_sol_warm(uv: (int, int), t: int)
    ensures
        sol_s(uv, t).0 > sol_s(uv, t).2,
        sol_s(uv, t).0 >= 52920,
        sol_s(uv, t).2 <= 34602,
{
    reveal(sol_s);
    let o: int = ONE as int;
    let turb1 = fbm_s(
        (add_s(mul_s(uv.0, 262144), mul_s(t, 5243)), sub_s(mul_s(uv.1, 262144), mul_s(t, 3277))),
        4,
    );
    let turb2 = fbm_s(
        (sub_s(mul_s(uv.0, 524288), mul_s(t, 7864)), add_s(mul_s(uv.1, 524288), mul_s(t, 6554))),
        3,
    );
    let band_distort = add_s(mul_s(turb1, 98304), mul_s(turb2, 52429));
    let bands = add_s(
        mul_s(sin_s(mul_s(add_s(mul_s(uv.1, 524288), band_distort), 205887)), 32768),
        32768,
    );
    let cx = sub_s(uv.0, 32768);
    let cy = sub_s(uv.1, 32768);
    let angle = atan2_s(cy, cx);
    let dist = sqrt_s(add_s(mul_s(cx, cx), mul_s(cy, cy)));
    let swirl = noise_s(
        (add_s(mul_s(angle, 131072), mul_s(t, 6554)), add_s(mul_s(dist, 655360), mul_s(turb1, 196608))),
    );
    let plasma = fbm_s(
        (
            add_s(add_s(mul_s(uv.0, 393216), mul_s(swirl, 131072)), mul_s(t, 9830)),
            sub_s(add_s(mul_s(uv.1, 393216), mul_s(turb2, 131072)), mul_s(t, 6554)),
        ),
        5,
    );
    let color_mix = clamp01_s(
        add_s(add_s(mul_s(bands, 19661), mul_s(plasma, 26214)), mul_s(swirl, 19661)),
    );
    let color = if color_mix < 16384 {
        mix3_s((65536, 62259, 19661), (65536, 52429, 6554), div_s(color_mix, 16384))
    } else if color_mix < 32768 {
        mix3_s((65536, 52429, 6554), (65536, 32768, 3277), div_s(sub_s(color_mix, 16384), 16384))
    } else if color_mix < 49152 {
        mix3_s((65536, 32768, 3277), (62259, 19661, 1311), div_s(sub_s(color_mix, 32768), 16384))
    } else {
        mix3_s((62259, 19661, 1311), (65536, 32768, 3277), div_s(sub_s(color_mix, 49152), 16384))
    };
    if color_mix < 16384 {
        lemma_ramp_t_bounds(color_mix);
        crate::fixed::lemma_mix_bounds(65536, 65536, div_s(color_mix, 16384));
        crate::fixed::lemma_mix_bounds(19661, 6554, div_s(color_mix, 16384));
    } else if color_mix < 32768 {
        lemma_ramp_t_bounds(sub_s(color_mix, 16384));
        crate::fixed::lemma_mix_bounds(65536, 65536, div_s(sub_s(color_mix, 16384), 16384));
        crate::fixed::lemma_mix_bounds(6554, 3277, div_s(sub_s(color_mix, 16384), 16384));
    } else if color_mix < 49152 {
        lemma_ramp_t_bounds(sub_s(color_mix, 32768));
        crate::fixed::lemma_mix_bounds(65536, 62259, div_s(sub_s(color_mix, 32768), 16384));
        crate::fixed::lemma_mix_bounds(3277, 1311, div_s(sub_s(color_mix, 32768), 16384));
    } else {
        lemma_ramp_t_bounds(sub_s(color_mix, 49152));
        crate::fixed::lemma_mix_bounds(62259, 65536, div_s(sub_s(color_mix, 49152), 16384));
        crate::fixed::lemma_mix_bounds(1311, 3277, div_s(sub_s(color_mix, 49152), 16384));
    }
    assert(62259 <= color.0 <= 65536);
    assert(0 <= color.2 <= 19661);
    let ss = smoothstep_s(0, 52429, mul_s(dist, 98304));
    crate::noise::lemma_smoothstep_bounds(0, 52429, mul_s(dist, 98304));
    let glow = sub_s(o, ss);
    crate::fixed::lemma_mul_s_upper(glow, 16384, o, 16384);
    let k = add_s(55706, mul_s(glow, 16384));
    assert(55706 <= k <= 72090);
    let fc = scale3_s(color, k);
    vstd::arithmetic::mul::lemma_mul_upper_bound(color.0, o, k, 72090);
    crate::fixed::lemma_mul_s_lower(color.0, 62259, k, 55706);
    crate::fixed::lemma_mul_s_upper(color.0, k, o, 72090);
    crate::fixed::lemma_mul_s_upper(color.2, k, 19661, 72090);
    let r_lo: int = (62259int * 55706int) / o;
    let b_hi: int = (19661int * 72090int) / o;
    assert(r_lo <= fc.0 <= (o * 72090) / o);
    assert(0 <= fc.2 <= b_hi);
    let flare = noise_s(
        (add_s(mul_s(uv.0, 1310720), mul_s(t, 19661)), sub_s(mul_s(uv.1, 1310720), mul_s(t, 13107))),
    );
    crate::noise::lemma_noise_s_bounds(
        (add_s(mul_s(uv.0, 1310720), mul_s(t, 19661)), sub_s(mul_s(uv.1, 1310720), mul_s(t, 13107))),
    );
    if flare > 45875 {
        let df = sub_s(flare, 45875);
        crate::fixed::lemma_mul_s_upper(df, 131072, 19660, 131072);
        let k2 = add_s(o, mul_s(df, 131072));
        crate::fixed::lemma_mul_s_nonneg(df, 131072);
        assert(o <= k2 <= 104856);
        vstd::arithmetic::mul::lemma_mul_upper_bound(fc.0, 72090, k2, 104856);
        crate::fixed::lemma_mul_s_lower(fc.0, r_lo, k2, o);
        crate::fixed::lemma_mul_s_upper(fc.2, k2, b_hi, 104856);
        vstd::arithmetic::div_mod::lemma_div_multiples_vanish(r_lo, o);
        assert(r_lo * o == o * r_lo) by (nonlinear_arith);
    }
}

/// Mercury: a liquid-metal look from two radial wave centers, two
/// directional waves, a perturbing fractal field, a specular highlight and
/// caustic sparkle over a gray ramp.
#[verifier::opaque]
pub open spec fn mercurio_s(uv: (int, int), t: int) -> (int, int, int) {
    let cx = sub_s(uv.0, 32768);
    let cy = sub_s(uv.1, 32768);
    let dist = sqrt_s(add_s(mul_s(cx, cx), mul_s(cy, cy)));
    let wave1 = mul_s(
        add_s(mul_s(sin_s(sub_s(mul_s(dist, 1638400), mul_s(t, 131072))), 32768), 32768),
        max_s(sub_s(65536, dist), 0),
    );
    let dx = sub_s(uv.0, 19661);
    let dy = sub_s(uv.1, 45875);
    let d2 = sqrt_s(add_s(mul_s(dx, dx), mul_s(dy, dy)));
    let wave2 = mul_s(
        mul_s(
            add_s(mul_s(sin_s(sub_s(mul_s(d2, 1310720), mul_s(t, 98304))), 32768), 32768),
            max_s(sub_s(65536, d2), 0),
        ),
        39322,
    );
    let dir1 = mul_s(
        add_s(
            mul_s(
                sin_s(sub_s(add_s(mul_s(uv.0, 524288), mul_s(uv.1, 262144)), mul_s(t, 78643))),
                32768,
            ),
            32768,
        ),
        26214,
    );
    let dir2 = mul_s(
        add_s(
            mul_s(
                sin_s(add_s(sub_s(mul_s(uv.0, 393216), mul_s(uv.1, 655360)), mul_s(t, 52429))),
                32768,
            ),
            32768,
        ),
        19661,
    );
    let perturb = fbm_s(
        (add_s(mul_s(uv.0, 327680), mul_s(t, 13107)), sub_s(mul_s(uv.1, 327680), mul_s(t, 9830))),
        3,
    );
    let waves = add_s(add_s(wave1, wave2), add_s(dir1, dir2));
    let water = clamp01_s(add_s(mul_s(waves, 39322), mul_s(perturb, 26214)));
    let spec_field = noise_s(
        (
            add_s(add_s(mul_s(uv.0, 1966080), mul_s(waves, 327680)), mul_s(t, 32768)),
            add_s(mul_s(uv.1, 1966080), mul_s(perturb, 196608)),
        ),
    );
    let specular = mul_s(smoothstep_s(42598, 55706, spec_field), 39322);
    let caust1 = noise_s(
        (add_s(mul_s(uv.0, 983040), mul_s(t, 19661)), add_s(mul_s(uv.1, 983040), mul_s(t, 13107))),
    );
    let caust2 = noise_s(
        (sub_s(mul_s(uv.0, 983040), mul_s(t, 16384)), sub_s(mul_s(uv.1, 983040), mul_s(t, 19661))),
    );
    let caustics = mul_s(clamp01_s(mul_s(mul_s(caust1, caust2), 262144)), 16384);
    let color = if water < 32768 {
        mix3_s((16384, 18350, 20972), (29491, 31457, 34079), div_s(water, 32768))
    } else {
        mix3_s((29491, 31457, 34079), (42598, 44564, 47186), div_s(sub_s(water, 32768), 32768))
    };
    let color2 = add3_s(color, (specular, specular, mul_s(specular, 72090)));
    add3_s(color2, (mul_s(caustics, 52429), mul_s(caustics, 58982), caustics))
}

/// Mercury surface color at `uv` and time `t`.
#[verifier::rlimit(100)]
pub fn mercurio_shader(uv: Vec2, time: i64) -> (c: Vec3)
    requires
        vec2_ok(uv@),
        fp_ok(time as int),
    ensures
        c@ == mercurio_s(uv@, time as int),
        vec3_ok(c@),
{
    proof {
        reveal(mercurio_s);
    }
    let cx: i64 = fp_sub(uv.x, 32768);
    let cy: i64 = fp_sub(uv.y, 32768);
    proof {
        lemma_mul_s_square_nonneg(cx as int);
        lemma_mul_s_square_nonneg(cy as int);
    }
    let dist: i64 = fp_sqrt(fp_add(fp_mul(cx, cx), fp_mul(cy, cy)));
    let wave1: i64 = fp_mul(
        fp_add(fp_mul(fp_sin(fp_sub(fp_mul(dist, 1638400), fp_mul(time, 131072))), 32768), 32768),
        fp_max(fp_sub(65536, dist), 0),
    );
    let dx: i64 = fp_sub(uv.x, 19661);
    let dy: i64 = fp_sub(uv.y, 45875);
    proof {
        lemma_mul_s_square_nonneg(dx as int);
        lemma_mul_s_square_nonneg(dy as int);
    }
    let d2: i64 = fp_sqrt(fp_add(fp_mul(dx, dx), fp_mul(dy, dy)));
    let wave2: i64 = fp_mul(
        fp_mul(
            fp_add(fp_mul(fp_sin(fp_sub(fp_mul(d2, 1310720), fp_mul(time, 98304))), 32768), 32768),
            fp_max(fp_sub(65536, d2), 0),
        ),
        39322,
    );
    let dir1: i64 = fp_mul(
        fp_add(
            fp_mul(
                fp_sin(fp_sub(fp_add(fp_mul(uv.x, 524288), fp_mul(uv.y, 262144)), fp_mul(time, 78643))),
                32768,
            ),
            32768,
        ),
        26214,
    );
    let dir2: i64 = fp_mul(
        fp_add(
            fp_mul(
                fp_sin(fp_add(fp_sub(fp_mul(uv.x, 393216), fp_mul(uv.y, 655360)), fp_mul(time, 52429))),
                32768,
            ),
            32768,
        ),
        19661,
    );
    let perturb: i64 = fbm(
        Vec2::new(
            fp_add(fp_mul(uv.x, 327680), fp_mul(time, 13107)),
            fp_sub(fp_mul(uv.y, 327680), fp_mul(time, 9830)),
        ),
        3,
    );
    let waves: i64 = fp_add(fp_add(wave1, wave2), fp_add(dir1, dir2));
    let water: i64 = fp_clamp01(fp_add(fp_mul(waves, 39322), fp_mul(perturb, 26214)));
    let spec_field: i64 = noise(
        Vec2::new(
            fp_add(fp_add(fp_mul(uv.x, 1966080), fp_mul(waves, 327680)), fp_mul(time, 32768)),
            fp_add(fp_mul(uv.y, 1966080), fp_mul(perturb, 196608)),
        ),
    );
    let specular: i64 = fp_mul(smoothstep(42598, 55706, spec_field), 39322);
    let caust1: i64 = noise(
        Vec2::new(
            fp_add(fp_mul(uv.x, 983040), fp_mul(time, 19661)),
            fp_add(fp_mul(uv.y, 983040), fp_mul(time, 13107)),
        ),
    );
    let caust2: i64 = noise(
        Vec2::new(
            fp_sub(fp_mul(uv.x, 983040), fp_mul(time, 16384)),
            fp_sub(fp_mul(uv.y, 983040), fp_mul(time, 19661)),
        ),
    );
    let caustics: i64 = fp_mul(fp_clamp01(fp_mul(fp_mul(caust1, caust2), 262144)), 16384);
    let color: Vec3 = if water < 32768 {
        mix_vec3(
            Vec3::new(16384, 18350, 20972),
            Vec3::new(29491, 31457, 34079),
            fp_div(water, 32768),
        )
    } else {
        mix_vec3(
            Vec3::new(29491, 31457, 34079),
            Vec3::new(42598, 44564, 47186),
            fp_div(fp_sub(water, 32768), 32768),
        )
    };
    let color2: Vec3 = color.plus(Vec3::new(specular, specular, fp_mul(specular, 72090)));
    color2.plus(Vec3::new(fp_mul(caustics, 52429), fp_mul(caustics, 58982), caustics))
}

/// Earth's elevation field: a six-octave fractal base plus a scaled noise
/// layer, driving the ocean/coast/land/mountain/snow ramp.
pub open spec fn tierra_elev_s(uv: (int, int)) -> int {
    add_s(
        fbm_s((add_s(mul_s(uv.0, 229376), 32768), add_s(mul_s(uv.1, 229376), 19661)), 6),
        mul_s(mul_s(noise_s((mul_s(uv.0, 458752), mul_s(uv.1, 458752))), 19661), 32768),
    )
}

/// Earth's elevation field at `uv`.
pub fn tierra_elev(uv: Vec2) -> (r: i64)
    requires
        vec2_ok(uv@),
    ensures
        r == tierra_elev_s(uv@),
        0 <= r,
        fp_ok(r as int),
{
    let cont1: i64 = fbm(
        Vec2::new(fp_add(fp_mul(uv.x, 229376), 32768), fp_add(fp_mul(uv.y, 229376), 19661)),
        6,
    );
    let cont2: i64 = fp_mul(noise(Vec2::new(fp_mul(uv.x, 458752), fp_mul(uv.y, 458752))), 19661);
    proof {
        lemma_mul_s_nonneg(noise_s((mul_s(uv@.0, 458752), mul_s(uv@.1, 458752))), 19661);
        lemma_mul_s_nonneg(cont2 as int, 32768);
    }
    fp_add(cont1, fp_mul(cont2, 32768))
}

/// Earth: the elevation field thresholded at 0.4 (ocean), 0.5 (coast),
/// 0.65 (land), 0.8 (mountain) into a color ramp, with polar ice blended in
/// where the absolute latitude exceeds 0.82.
#[verifier::opaque]
pub open spec fn tierra_s(uv: (int, int), t: int) -> (int, int, int) {
    let cont = tierra_elev_s(uv);
    let color = if cont < 26214 {
        let depth_var = noise_s((mul_s(uv.0, 786432), mul_s(uv.1, 786432)));
        mix3_s((3277, 9830, 26214), (6554, 16384, 36045), depth_var)
    } else if cont < 32768 {
        mix3_s((6554, 16384, 36045), (13107, 29491, 7864), div_s(sub_s(cont, 26214), 6554))
    } else if cont < 42598 {
        let detail = mul_s(noise_s((mul_s(uv.0, 1310720), mul_s(uv.1, 1310720))), 9830);
        scale3_s(
            mix3_s((13107, 29491, 7864), (22938, 26214, 9830), div_s(sub_s(cont, 32768), 9830)),
            add_s(58982, detail),
        )
    } else if cont < 52429 {
        let rock = mul_s(noise_s((mul_s(uv.0, 1638400), mul_s(uv.1, 1638400))), 13107);
        scale3_s(
            mix3_s((32768, 27525, 16384), (26214, 22938, 19661), div_s(sub_s(cont, 42598), 9830)),
            add_s(55706, rock),
        )
    } else {
        let snow_var = mul_s(noise_s((mul_s(uv.0, 1966080), mul_s(uv.1, 1966080))), 6554);
        scale3_s(
            mix3_s((26214, 22938, 19661), (60293, 60293, 62259), div_s(sub_s(cont, 52429), 13107)),
            add_s(62259, snow_var),
        )
    };
    let lat = mul_s(abs_s(sub_s(uv.1, 32768)), 131072);
    if lat > 53740 {
        let polar = div_s(sub_s(lat, 53740), 11796);
        mix3_s(color, (57672, 58982, 62259), mul_s(polar, 52429))
    } else {
        color
    }
}

/// Earth surface color at `uv` (static: time does not enter the field).
#[verifier::rlimit(100)]
pub fn tierra_shader(uv: Vec2, time: i64) -> (c: Vec3)
    requires
        vec2_ok(uv@),
        fp_ok(time as int),
    ensures
        c@ == tierra_s(uv@, time as int),
        vec3_ok(c@),
{
    proof {
        reveal(tierra_s);
    }
    let cont: i64 = tierra_elev(uv);
    let color: Vec3 = if cont < 26214 {
        let depth_var: i64 = noise(Vec2::new(fp_mul(uv.x, 786432), fp_mul(uv.y, 786432)));
        mix_vec3(Vec3::new(3277, 9830, 26214), Vec3::new(6554, 16384, 36045), depth_var)
    } else if cont < 32768 {
        mix_vec3(
            Vec3::new(6554, 16384, 36045),
            Vec3::new(13107, 29491, 7864),
            fp_div(fp_sub(cont, 26214), 6554),
        )
    } else if cont < 42598 {
        let detail: i64 = fp_mul(noise(Vec2::new(fp_mul(uv.x, 1310720), fp_mul(uv.y, 1310720))), 9830);
        mix_vec3(
            Vec3::new(13107, 29491, 7864),
            Vec3::new(22938, 26214, 9830),
            fp_div(fp_sub(cont, 32768), 9830),
        ).scale(fp_add(58982, detail))
    } else if cont < 52429 {
        let rock: i64 = fp_mul(noise(Vec2::new(fp_mul(uv.x, 1638400), fp_mul(uv.y, 1638400))), 13107);
        mix_vec3(
            Vec3::new(32768, 27525, 16384),
            Vec3::new(26214, 22938, 19661),
            fp_div(fp_sub(cont, 42598), 9830),
        ).scale(fp_add(55706, rock))
    } else {
        let snow_var: i64 = fp_mul(noise(Vec2::new(fp_mul(uv.x, 1966080), fp_mul(uv.y, 1966080))), 6554);
        mix_vec3(
            Vec3::new(26214, 22938, 19661),
            Vec3::new(60293, 60293, 62259),
            fp_div(fp_sub(cont, 52429), 13107),
        ).scale(fp_add(62259, snow_var))
    };
    let lat: i64 = fp_mul(fp_abs(fp_sub(uv.y, 32768)), 131072);
    if lat > 53740 {
        let polar: i64 = fp_div(fp_sub(lat, 53740), 11796);
        mix_vec3(color, Vec3::new(57672, 58982, 62259), fp_mul(polar, 52429))
    } else {
        color
    }
}

/// Mars: fractal terrain with two extra noise layers, three crater masks
/// that darken the ground toward a shadow hue, fine dust grain, and small
/// polar caps above latitude 0.9.
#[verifier::opaque]
pub open spec fn marte_s(uv: (int, int), t: int) -> (int, int, int) {
    let terrain1 = fbm_s((mul_s(uv.0, 262144), mul_s(uv.1, 262144)), 6);
    let terrain2 = mul_s(
        noise_s((add_s(mul_s(uv.0, 524288), 131072), add_s(mul_s(uv.1, 524288), 98304))),
        26214,
    );
    let terrain3 = mul_s(noise_s((mul_s(uv.0, 1048576), mul_s(uv.1, 1048576))), 13107);
    let terrain = add_s(add_s(terrain1, mul_s(terrain2, 32768)), mul_s(terrain3, 19661));
    let crater1 = noise_s((mul_s(uv.0, 655360), mul_s(uv.1, 655360)));
    let crater2 = noise_s((add_s(mul_s(uv.0, 1310720), 327680), add_s(mul_s(uv.1, 1310720), 196608)));
    let crater3 = noise_s((mul_s(uv.0, 2293760), mul_s(uv.1, 2293760)));
    let craters = add_s(
        add_s(
            mul_s(smoothstep_s(36045, 42598, crater1), 16384),
            mul_s(smoothstep_s(38011, 44564, crater2), 9830),
        ),
        mul_s(smoothstep_s(39322, 45875, crater3), 6554),
    );
    let elev = clamp01_s(mul_s(terrain, 45875));
    let color = if elev < 22938 {
        mix3_s((32768, 14418, 5243), (45875, 20972, 7864), div_s(elev, 22938))
    } else if elev < 45875 {
        mix3_s((45875, 20972, 7864), (55706, 29491, 13107), div_s(sub_s(elev, 22938), 22938))
    } else {
        let rock_detail = mul_s(noise_s((mul_s(uv.0, 2621440), mul_s(uv.1, 2621440))), 6554);
        scale3_s((55706, 29491, 13107), add_s(62259, rock_detail))
    };
    let darkened = scale3_s(color, sub_s(65536, craters));
    let shadowed = mix3_s(darkened, (22938, 9830, 3277), mul_s(craters, 39322));
    let dust = mul_s(noise_s((mul_s(uv.0, 3276800), mul_s(uv.1, 3276800))), 5243);
    let dusted = scale3_s(shadowed, add_s(62915, dust));
    let lat = mul_s(abs_s(sub_s(uv.1, 32768)), 131072);
    if lat > 58982 {
        let polar = div_s(sub_s(lat, 58982), 6554);
        mix3_s(dusted, (58982, 57672, 55706), mul_s(polar, 45875))
    } else {
        dusted
    }
}

/// Mars surface color at `uv` (static: time does not enter the field).
#[verifier::rlimit(100)]
pub fn marte_shader(uv: Vec2, time: i64) -> (c: Vec3)
    requires
        vec2_ok(uv@),
        fp_ok(time as int),
    ensures
        c@ == marte_s(uv@, time as int),
        vec3_ok(c@),
{
    proof {
        reveal(marte_s);
    }
    let terrain1: i64 = fbm(Vec2::new(fp_mul(uv.x, 262144), fp_mul(uv.y, 262144)), 6);
    let terrain2: i64 = fp_mul(
        noise(Vec2::new(fp_add(fp_mul(uv.x, 524288), 131072), fp_add(fp_mul(uv.y, 524288), 98304))),
        26214,
    );
    let terrain3: i64 = fp_mul(noise(Vec2::new(fp_mul(uv.x, 1048576), fp_mul(uv.y, 1048576))), 13107);
    let terrain: i64 = fp_add(fp_add(terrain1, fp_mul(terrain2, 32768)), fp_mul(terrain3, 19661));
    let crater1: i64 = noise(Vec2::new(fp_mul(uv.x, 655360), fp_mul(uv.y, 655360)));
    let crater2: i64 = noise(
        Vec2::new(fp_add(fp_mul(uv.x, 1310720), 327680), fp_add(fp_mul(uv.y, 1310720), 196608)),
    );
    let crater3: i64 = noise(Vec2::new(fp_mul(uv.x, 2293760), fp_mul(uv.y, 2293760)));
    let craters: i64 = fp_add(
        fp_add(
            fp_mul(smoothstep(36045, 42598, crater1), 16384),
            fp_mul(smoothstep(38011, 44564, crater2), 9830),
        ),
        fp_mul(smoothstep(39322, 45875, crater3), 6554),
    );
    let elev: i64 = fp_clamp01(fp_mul(terrain, 45875));
    let color: Vec3 = if elev < 22938 {
        mix_vec3(
            Vec3::new(32768, 14418, 5243),
            Vec3::new(45875, 20972, 7864),
            fp_div(elev, 22938),
        )
    } else if elev < 45875 {
        mix_vec3(
            Vec3::new(45875, 20972, 7864),
            Vec3::new(55706, 29491, 13107),
            fp_div(fp_sub(elev, 22938), 22938),
        )
    } else {
        let rock_detail: i64 = fp_mul(
            noise(Vec2::new(fp_mul(uv.x, 2621440), fp_mul(uv.y, 2621440))),
            6554,
        );
        Vec3::new(55706, 29491, 13107).scale(fp_add(62259, rock_detail))
    };
    let darkened: Vec3 = color.scale(fp_sub(65536, craters));
    let shadowed: Vec3 = mix_vec3(darkened, Vec3::new(22938, 9830, 3277), fp_mul(craters, 39322));
    let dust: i64 = fp_mul(noise(Vec2::new(fp_mul(uv.x, 3276800), fp_mul(uv.y, 3276800))), 5243);
    let dusted: Vec3 = shadowed.scale(fp_add(62915, dust));
    let lat: i64 = fp_mul(fp_abs(fp_sub(uv.y, 32768)), 131072);
    if lat > 58982 {
        let polar: i64 = fp_div(fp_sub(lat, 58982), 6554);
        mix_vec3(dusted, Vec3::new(58982, 57672, 55706), fp_mul(polar, 45875))
    } else {
        dusted
    }
}

/// Wherever Earth's elevation field lies below the ocean threshold (0.4) and
/// the latitude is below the polar band, the surface color stays inside the
/// ocean ramp between the deep and the shallow water colors: blue dominates
/// green and green dominates red.
pub proof fn lemma_tierra_ocean(uv: (int, int), t: int)
    requires
        vec2_ok(uv),
        tierra_elev_s(uv) < 26214,
        mul_s(abs_s(sub_s(uv.1, 32768)), 131072) <= 53740,
    ensures
        3277 <= tierra_s(uv, t).0 <= 6554,
        9830 <= tierra_s(uv, t).1 <= 16384,
        26214 <= tierra_s(uv, t).2 <= 36045,
        tierra_s(uv, t).0 < tierra_s(uv, t).1 < tierra_s(uv, t).2,
{
    reveal(tierra_s);
    let q: (int, int) = (mul_s(uv.0, 786432), mul_s(uv.1, 786432));
    crate::noise::lemma_noise_s_bounds(q);
    let dv: int = noise_s(q);
    crate::fixed::lemma_mix_bounds(3277, 6554, dv);
    crate::fixed::lemma_mix_bounds(9830, 16384, dv);
    crate::fixed::lemma_mix_bounds(26214, 36045, dv);
}

/// Moon (and the generic cratered-rock fallback): three crater masks of
/// decreasing size darken a supplied base color, plus fine surface grain.
#[verifier::opaque]
pub open spec fn moon_s(uv: (int, int), mc: (int, int, int), t: int) -> (int, int, int) {
    let cr1 = mul_s(
        smoothstep_s(32768, 39322, noise_s((mul_s(uv.0, 655360), mul_s(uv.1, 655360)))),
        26214,
    );
    let cr2 = mul_s(
        smoothstep_s(36045, 42598, noise_s((mul_s(uv.0, 1638400), mul_s(uv.1, 1638400)))),
        13107,
    );
    let cr3 = mul_s(
        smoothstep_s(39322, 45875, noise_s((mul_s(uv.0, 2621440), mul_s(uv.1, 2621440)))),
        6554,
    );
    let surf = mul_s(noise_s((mul_s(uv.0, 786432), mul_s(uv.1, 786432))), 9830);
    let color = scale3_s(mc, sub_s(sub_s(sub_s(65536, cr1), cr2), cr3));
    scale3_s(scale3_s(color, add_s(65536, surf)), 39322)
}

/// Moon surface color at `uv` and time `t`, tinted by the body's base color.
pub fn moon_shader(uv: Vec2, moon_color: Vec3, time: i64) -> (c: Vec3)
    requires
        vec2_ok(uv@),
        vec3_ok(moon_color@),
        fp_ok(time as int),
    ensures
        c@ == moon_s(uv@, moon_color@, time as int),
        vec3_ok(c@),
{
    proof {
        reveal(moon_s);
    }
    let cr1: i64 = fp_mul(
        smoothstep(32768, 39322, noise(Vec2::new(fp_mul(uv.x, 655360), fp_mul(uv.y, 655360)))),
        26214,
    );
    let cr2: i64 = fp_mul(
        smoothstep(36045, 42598, noise(Vec2::new(fp_mul(uv.x, 1638400), fp_mul(uv.y, 1638400)))),
        13107,
    );
    let cr3: i64 = fp_mul(
        smoothstep(39322, 45875, noise(Vec2::new(fp_mul(uv.x, 2621440), fp_mul(uv.y, 2621440)))),
        6554,
    );
    let surf: i64 = fp_mul(noise(Vec2::new(fp_mul(uv.x, 786432), fp_mul(uv.y, 786432))), 9830);
    let color: Vec3 = moon_color.scale(fp_sub(fp_sub(fp_sub(65536, cr1), cr2), cr3));
    color.scale(fp_add(65536, surf)).scale(39322)
}

} // verus!
