use astrotex::image::{Color, Image};
use astrotex::manager::{BodyType, ShaderManager};
use astrotex::shaders::{
    jupiter_shader, marte_shader, mercurio_shader, moon_shader, neptuno_shader, saturno_shader,
    sol_shader, tierra_shader, urano_shader, venus_shader,
};
use astrotex::vec::{Vec2, Vec3};

#[test]
fn sol_raster_is_warm_hued() {
    let mut mgr: ShaderManager = ShaderManager::new();
    let img: Image = mgr.render_to_image(
        BodyType::Star,
        Color::new(255, 200, 50, 255),
        0,
        128,
        "Sol",
    );
    assert_eq!(img.width, 128);
    assert_eq!(img.height, 128);
    assert_eq!(img.pixels.len(), 4 * 128 * 128);
    let mut red_sum: u64 = 0;
    let mut blue_sum: u64 = 0;
    let mut i: usize = 0;
    while i < img.pixels.len() {
        red_sum += img.pixels[i] as u64;
        blue_sum += img.pixels[i + 2] as u64;
        assert_eq!(img.pixels[i + 3], 255);
        i += 4;
    }
    assert!(red_sum > blue_sum);
}

#[test]
fn sol_raster_completes_for_large_times() {
    let mut mgr: ShaderManager = ShaderManager::new();
    let img: Image = mgr.render_to_image(
        BodyType::Star,
        Color::new(255, 200, 50, 255),
        655360000,
        64,
        "Sol",
    );
    assert_eq!(img.pixels.len(), 4 * 64 * 64);
    let mut i: usize = 3;
    while i < img.pixels.len() {
        assert_eq!(img.pixels[i], 255);
        i += 4;
    }
}

#[test]
fn rasters_are_bit_identical_across_invocations() {
    let mut mgr: ShaderManager = ShaderManager::new();
    let a: Image = mgr.render_to_image(BodyType::GasGiant, Color::new(127, 106, 79, 255), 65536, 32, "Jupiter");
    let b: Image = mgr.render_to_image(BodyType::GasGiant, Color::new(127, 106, 79, 255), 65536, 32, "Jupiter");
    assert_eq!(a.pixels, b.pixels);
}

#[test]
fn unknown_moon_falls_back_to_the_cratered_pipeline() {
    let mut mgr: ShaderManager = ShaderManager::new();
    let img: Image = mgr.render_to_image(BodyType::Moon, Color::new(130, 130, 130, 255), 0, 4, "Fobos");
    let base: Vec3 = Vec3::new(
        130i64 * 65536 / 255,
        130i64 * 65536 / 255,
        130i64 * 65536 / 255,
    );
    let mut y: usize = 0;
    while y < 4 {
        let mut x: usize = 0;
        while x < 4 {
            let uv: Vec2 = Vec2::new((x as i64) * 65536 / 4, (y as i64) * 65536 / 4);
            let expected: Color = moon_shader(uv, base, 0).to_color();
            let k: usize = 4 * (y * 4 + x);
            assert_eq!(img.pixels[k], expected.r);
            assert_eq!(img.pixels[k + 1], expected.g);
            assert_eq!(img.pixels[k + 2], expected.b);
            assert_eq!(img.pixels[k + 3], 255);
            x += 1;
        }
        y += 1;
    }
}

#[test]
fn category_only_rendering_uses_the_fallback() {
    let mut mgr: ShaderManager = ShaderManager::new();
    let named: Image = mgr.create_texture_for_body_named(
        BodyType::RockyPlanet,
        Color::new(230, 41, 55, 255),
        0,
        "Fobos",
    );
    let unnamed: Image = mgr.create_texture_for_body(
        BodyType::RockyPlanet,
        Color::new(230, 41, 55, 255),
        0,
    );
    assert_eq!(named.width, 128);
    assert_eq!(unnamed.width, 128);
    assert_eq!(named.pixels, unnamed.pixels);
}

#[test]
fn named_dispatch_reaches_each_pipeline_through_the_driver() {
    let mut mgr: ShaderManager = ShaderManager::new();
    let names: [&str; 9] = [
        "Sol", "Mercurio", "Venus", "Tierra", "Marte", "Jupiter", "Saturno", "Urano", "Neptuno",
    ];
    let mut i: usize = 0;
    while i < names.len() {
        let img: Image = mgr.render_to_image(BodyType::Star, Color::new(1, 2, 3, 255), 65536, 2, names[i]);
        let uv: Vec2 = Vec2::new(65536 / 2, 65536 / 2);
        let direct: Vec3 = match names[i] {
            "Sol" => sol_shader(uv, 65536),
            "Mercurio" => mercurio_shader(uv, 65536),
            "Venus" => venus_shader(uv, 65536),
            "Tierra" => tierra_shader(uv, 65536),
            "Marte" => marte_shader(uv, 65536),
            "Jupiter" => jupiter_shader(uv, 65536),
            "Saturno" => saturno_shader(uv, 65536),
            "Urano" => urano_shader(uv, 65536),
            _ => neptuno_shader(uv, 65536),
        };
        let expected: Color = direct.to_color();
        let k: usize = 4 * (1 * 2 + 1);
        assert_eq!(img.pixels[k], expected.r);
        assert_eq!(img.pixels[k + 1], expected.g);
        assert_eq!(img.pixels[k + 2], expected.b);
        i += 1;
    }
}

#[test]
fn one_pixel_raster_is_complete() {
    let mut mgr: ShaderManager = ShaderManager::new();
    let img: Image = mgr.render_to_image(BodyType::Star, Color::new(255, 200, 50, 255), 0, 1, "Sol");
    assert_eq!(img.width, 1);
    assert_eq!(img.height, 1);
    assert_eq!(img.pixels.len(), 4);
    assert_eq!(img.pixels[3], 255);
}
