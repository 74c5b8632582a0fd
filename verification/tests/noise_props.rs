use astrotex::fixed::{fp_atan2, fp_sin, fp_sqrt, mix_fp, ONE};
use astrotex::noise::{fbm, hash, noise, seam_noise, smoothstep};
use astrotex::vec::Vec2;

#[test]
fn sine_is_zero_at_period_ends_and_one_at_crest() {
    assert_eq!(fp_sin(0), 0);
    assert_eq!(fp_sin(102944), 65535);
    assert_eq!(fp_sin(-102944), -65535);
    assert_eq!(fp_sin(205887), 0);
}

#[test]
fn sine_is_bounded_everywhere() {
    let samples: [i64; 6] = [0, 12345, -987654, 65536000, 411774, 205886];
    let mut i: usize = 0;
    while i < samples.len() {
        let s: i64 = fp_sin(samples[i]);
        assert!(-ONE <= s && s <= ONE);
        i += 1;
    }
}

#[test]
fn square_root_exact_values() {
    assert_eq!(fp_sqrt(4 * ONE), 2 * ONE);
    assert_eq!(fp_sqrt(2 * ONE), 92681);
    assert_eq!(fp_sqrt(0), 0);
}

#[test]
fn arctangent_quadrants() {
    assert_eq!(fp_atan2(0, ONE), 0);
    assert_eq!(fp_atan2(ONE, ONE), 51472);
    assert_eq!(fp_atan2(ONE, 0), 102944);
    assert_eq!(fp_atan2(0, -ONE), 205887);
    assert_eq!(fp_atan2(0, 0), 0);
}

#[test]
fn mix_interpolates_between_ends() {
    assert_eq!(mix_fp(0, ONE, 32768), 32768);
    assert_eq!(mix_fp(100, 100, 12345), 100);
    assert_eq!(mix_fp(ONE, 0, 0), ONE);
    assert_eq!(mix_fp(ONE, 0, ONE), 0);
}

#[test]
fn smoothstep_edges_and_midpoint() {
    assert_eq!(smoothstep(0, ONE, -5), 0);
    assert_eq!(smoothstep(0, ONE, 0), 0);
    assert_eq!(smoothstep(0, ONE, ONE), ONE);
    assert_eq!(smoothstep(0, ONE, 2 * ONE), ONE);
    assert_eq!(smoothstep(0, ONE, 32768), 32768);
    assert_eq!(smoothstep(13107, 39322, 26214), 32764);
}

#[test]
fn hash_exact_values() {
    assert_eq!(hash(Vec2::new(3 * ONE, 5 * ONE)), 16382);
    assert_eq!(hash(Vec2::new(0, 0)), 0);
    assert_eq!(hash(Vec2::new(-2 * ONE, 7 * ONE)), 15863);
}

#[test]
fn noise_reduces_to_hash_at_lattice_points() {
    let points: [(i64, i64); 4] = [(0, 0), (3, 5), (-2, 7), (11, -4)];
    let mut i: usize = 0;
    while i < points.len() {
        let p: Vec2 = Vec2::new(points[i].0 * ONE, points[i].1 * ONE);
        assert_eq!(noise(p), hash(p));
        i += 1;
    }
}

#[test]
fn noise_interpolates_between_corners_off_lattice() {
    assert_eq!(noise(Vec2::new(98304, 163840)), 31078);
}

#[test]
fn noise_and_seam_noise_are_bounded() {
    let coords: [(i64, i64); 6] = [
        (100, 200),
        (30000, 50000),
        (65000, 12345),
        (983, 24000),
        (0, 9999),
        (65535, 40000),
    ];
    let mut i: usize = 0;
    while i < coords.len() {
        let p: Vec2 = Vec2::new(coords[i].0, coords[i].1);
        let n: i64 = noise(p);
        let s: i64 = seam_noise(p);
        assert!(0 <= n && n < ONE);
        assert!(0 <= s && s < ONE);
        i += 1;
    }
}

#[test]
fn seam_noise_uses_wrapped_sample_at_left_edge() {
    let v: i64 = 24248;
    assert_eq!(seam_noise(Vec2::new(0, v)), noise(Vec2::new(ONE, v)));
    assert_eq!(seam_noise(Vec2::new(0, v)), 47374);
}

#[test]
fn seam_noise_matches_noise_outside_band() {
    let v: i64 = 24248;
    assert_eq!(seam_noise(Vec2::new(32768, v)), noise(Vec2::new(32768, v)));
    assert_eq!(seam_noise(Vec2::new(32768, v)), 25106);
}

#[test]
fn seam_noise_blends_inside_band() {
    let v: i64 = 24248;
    let s: i64 = seam_noise(Vec2::new(983, v));
    let lo_side: i64 = noise(Vec2::new(983, v));
    let hi_side: i64 = noise(Vec2::new(983 + ONE, v));
    let lo: i64 = if lo_side < hi_side { lo_side } else { hi_side };
    let hi: i64 = if lo_side < hi_side { hi_side } else { lo_side };
    assert!(lo <= s && s <= hi);
    assert_eq!(s, 25121);
}

#[test]
fn fbm_exact_values() {
    assert_eq!(fbm(Vec2::new(12345, 23456), 6), 15610);
    assert_eq!(fbm(Vec2::new(98304, 163840), 4), 27048);
    assert_eq!(fbm(Vec2::new(12345, 23456), 0), 0);
}

#[test]
fn fbm_is_bounded_by_the_octave_sum() {
    let coords: [(i64, i64); 3] = [(12345, 23456), (98304, 163840), (65000, 1)];
    let mut oct: u32 = 1;
    while oct <= 8 {
        let mut i: usize = 0;
        while i < coords.len() {
            let v: i64 = fbm(Vec2::new(coords[i].0, coords[i].1), oct);
            let bound: i64 = ONE - ONE / (1i64 << oct);
            assert!(0 <= v && v <= bound);
            i += 1;
        }
        oct += 1;
    }
}
