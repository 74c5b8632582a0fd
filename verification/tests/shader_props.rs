use astrotex::image::Color;
use astrotex::manager::{pipeline_of, BodyType, Pipeline};
use astrotex::shaders::{
    jupiter_shader, marte_shader, mercurio_shader, moon_shader, neptuno_shader, saturno_shader,
    sol_shader, tierra_elev, tierra_shader, urano_shader, venus_shader,
};
use astrotex::vec::{Vec2, Vec3};

#[test]
fn pipelines_are_deterministic() {
    let uv: Vec2 = Vec2::new(19661, 26214);
    let t: i64 = 65536;
    let a: Vec3 = jupiter_shader(uv, t);
    let b: Vec3 = jupiter_shader(uv, t);
    assert_eq!((a.x, a.y, a.z), (b.x, b.y, b.z));
    let c: Vec3 = sol_shader(uv, t);
    let d: Vec3 = sol_shader(uv, t);
    assert_eq!((c.x, c.y, c.z), (d.x, d.y, d.z));
}

#[test]
fn earth_ocean_is_blue_dominant() {
    let uv: Vec2 = Vec2::new(0, 16384);
    let elev: i64 = tierra_elev(uv);
    assert!(elev < 26214);
    let c: Vec3 = tierra_shader(uv, 0);
    assert!(c.x < c.y && c.y < c.z);
    assert_eq!((c.x, c.y, c.z), (3526, 10328, 26961));
}

#[test]
fn earth_polar_band_trends_toward_ice() {
    let c: Vec3 = tierra_shader(Vec2::new(19661, 64881), 0);
    assert!(c.x > 39322 && c.y > 39322 && c.z > 39322);
    assert_eq!((c.x, c.y, c.z), (44818, 49688, 46431));
}

#[test]
fn jupiter_spot_is_redder_than_same_latitude() {
    let spot: Vec3 = jupiter_shader(Vec2::new(42598, 36045), 0);
    let off: Vec3 = jupiter_shader(Vec2::new(6554, 36045), 0);
    assert!(spot.x - spot.z > off.x - off.z);
    assert_eq!((spot.x, spot.y, spot.z), (52429, 19661, 13107));
    assert_eq!((off.x, off.y, off.z), (36523, 26692, 19979));
}

#[test]
fn sol_pipeline_exact_value() {
    let c: Vec3 = sol_shader(Vec2::new(19661, 26214), 0);
    assert_eq!((c.x, c.y, c.z), (65867, 49446, 6045));
}

#[test]
fn mercurio_pipeline_exact_value() {
    let c: Vec3 = mercurio_shader(Vec2::new(19661, 26214), 65536);
    assert_eq!((c.x, c.y, c.z), (81393, 84997, 93190));
}

#[test]
fn venus_pipeline_exact_value() {
    let c: Vec3 = venus_shader(Vec2::new(19661, 26214), 65536);
    assert_eq!((c.x, c.y, c.z), (47916, 29239, 7670));
}

#[test]
fn marte_pipeline_exact_value() {
    let c: Vec3 = marte_shader(Vec2::new(19661, 26214), 0);
    assert_eq!((c.x, c.y, c.z), (45882, 20930, 7834));
}

#[test]
fn saturno_pipeline_exact_value() {
    let c: Vec3 = saturno_shader(Vec2::new(19661, 26214), 131072);
    assert_eq!((c.x, c.y, c.z), (51029, 44475, 31368));
}

#[test]
fn urano_pipeline_exact_value() {
    let c: Vec3 = urano_shader(Vec2::new(19661, 26214), 0);
    assert_eq!((c.x, c.y, c.z), (38960, 55344, 58692));
}

#[test]
fn neptuno_storm_darkens_the_center() {
    let center: Vec3 = neptuno_shader(Vec2::new(26214, 29491), 0);
    let off: Vec3 = neptuno_shader(Vec2::new(58982, 29491), 0);
    assert_eq!((center.x, center.y, center.z), (4587, 9174, 27525));
    assert_eq!((off.x, off.y, off.z), (9065, 18130, 46856));
    assert!(center.x < off.x && center.y < off.y && center.z < off.z);
}

#[test]
fn moon_craters_darken_the_base_color() {
    let base: Vec3 = Vec3::new(52429, 52429, 52429);
    let c: Vec3 = moon_shader(Vec2::new(19661, 26214), base, 0);
    assert_eq!((c.x, c.y, c.z), (30684, 30684, 30684));
    assert!(c.x < base.x);
}

#[test]
fn quantization_clamps_out_of_range_components() {
    let over: Color = Vec3::new(98304, 65536, 76000).to_color();
    let at_one: Color = Vec3::new(65536, 65536, 65536).to_color();
    assert_eq!((over.r, over.g, over.b, over.a), (255, 255, 255, 255));
    assert_eq!((at_one.r, at_one.g, at_one.b, at_one.a), (255, 255, 255, 255));
    let under: Color = Vec3::new(-13107, 0, 32768).to_color();
    assert_eq!((under.r, under.g, under.b, under.a), (0, 0, 127, 255));
}

#[test]
fn dispatch_matches_names_then_falls_back_by_category() {
    assert_eq!(pipeline_of("Sol", BodyType::Moon), Pipeline::Sol);
    assert_eq!(pipeline_of("Tierra", BodyType::Star), Pipeline::Tierra);
    assert_eq!(pipeline_of("Neptuno", BodyType::RockyPlanet), Pipeline::Neptuno);
    assert_eq!(pipeline_of("Fobos", BodyType::Moon), Pipeline::Luna);
    assert_eq!(pipeline_of("", BodyType::Star), Pipeline::Sol);
    assert_eq!(pipeline_of("X", BodyType::GasGiant), Pipeline::Saturno);
    assert_eq!(pipeline_of("X", BodyType::RockyPlanet), Pipeline::Luna);
}
