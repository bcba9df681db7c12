//! Checks of the scene model and the ray marcher: colors, sphere distances,
//! the three marching scenarios, and frame-level determinism.

use raymarch::color::Color;
use raymarch::fixed::{Fx, FX_ONE};
use raymarch::scene::{Buffer, Camera, Light, Scene, Sphere, FRAME_PIXELS, RASTER_HEIGHT, RASTER_WIDTH};
use raymarch::vec::Vec3;

fn fx(units: i64) -> Fx {
    Fx { raw: units * FX_ONE }
}

fn v3(x: i64, y: i64, z: i64) -> Vec3 {
    Vec3::new(fx(x), fx(y), fx(z))
}

const RED: Color = Color { rgb565: 63488 };
const GREEN: Color = Color { rgb565: 2016 };
const BLUE: Color = Color { rgb565: 31 };
const SKY: Color = Color { rgb565: 13119 };

fn sphere(x: i64, y: i64, z: i64, radius: i64, color: Color) -> Sphere {
    Sphere { position: v3(x, y, z), radius: fx(radius), color }
}

fn one_sphere_scene(s: Sphere) -> Scene {
    Scene {
        spheres: [s, s, s],
        sphere_count: 1,
        camera: Camera { position: v3(0, 0, 0), focal_length: fx(1) },
        background_color: SKY,
        light: Light { position: v3(0, 10, 0) },
    }
}

#[test]
fn from_rgb_packs_the_top_bits() {
    assert_eq!(Color::from_rgb(255, 255, 255).rgb565, 65535);
    assert_eq!(Color::from_rgb(0, 0, 0).rgb565, 0);
    assert_eq!(Color::from_rgb(8, 4, 8).rgb565, 2048 + 32 + 1);
    assert_eq!(Color::from_rgb(255, 0, 0), RED);
    assert_eq!(Color::from_rgb(0, 255, 0), GREEN);
    assert_eq!(Color::from_rgb(0, 0, 255), BLUE);
    assert_eq!(Color::from_rgb(50, 100, 255), SKY);
}

#[test]
fn sphere_distance_is_signed() {
    let s = sphere(1, 2, 3, 1, RED);
    // At the center: exactly minus the radius.
    assert_eq!(s.distance_with(v3(1, 2, 3)).raw, -FX_ONE);
    // On the surface along an axis: exactly zero.
    assert_eq!(s.distance_with(v3(2, 2, 3)).raw, 0);
    // On the surface along a (0.6, 0.8, 0) unit direction: zero up to
    // the format's rounding.
    let p = Vec3::new(
        Fx { raw: FX_ONE + 629146 },
        Fx { raw: 2 * FX_ONE + 838861 },
        fx(3),
    );
    let d = s.distance_with(p).raw;
    assert!(d.abs() <= 100, "off-surface distance raw {d}");
    // Two units out along an axis: exactly one unit.
    assert_eq!(s.distance_with(v3(3, 2, 3)).raw, FX_ONE);
}

#[test]
fn get_ray_color_ignores_travel_distance() {
    let s = sphere(0, 0, 5, 2, RED);
    assert_eq!(s.get_ray_color(fx(3)), RED);
    assert_eq!(s.get_ray_color(fx(100)), RED);
}

#[test]
fn sensor_sits_behind_the_camera() {
    let c = Camera { position: v3(0, 0, -10), focal_length: fx(3) };
    let sp = c.get_sensor_position();
    assert_eq!((sp.x.raw, sp.y.raw, sp.z.raw), (0, 0, -13 * FX_ONE));
}

#[test]
fn center_ray_hits_a_sphere_ahead() {
    // Camera at the origin, focal length one, a red sphere two units wide
    // five units down the axis: the center ray strikes it near depth three
    // and must come back red, never the background.
    let scene = one_sphere_scene(sphere(0, 0, 5, 2, RED));
    let sensor = scene.camera.get_sensor_position();
    let c = scene.march_ray_for(Fx { raw: 0 }, Fx { raw: 0 }, 50, sensor);
    assert_eq!(c, RED);
}

#[test]
fn center_ray_misses_a_far_sphere() {
    // The same camera with the sphere moved far outside the view frustum:
    // the center ray exhausts its budget and yields the background.
    let scene = one_sphere_scene(sphere(100, 100, 100, 2, RED));
    let sensor = scene.camera.get_sensor_position();
    let c = scene.march_ray_for(Fx { raw: 0 }, Fx { raw: 0 }, 50, sensor);
    assert_eq!(c, SKY);
}

#[test]
fn symmetric_spheres_color_their_own_halves() {
    // Two equal spheres either side of the image center: rays tilted left
    // map to the left sphere's color, rays tilted right to the right's,
    // and the center ray passes between them.
    let left = sphere(-2, 0, 5, 1, GREEN);
    let right = sphere(2, 0, 5, 1, BLUE);
    let scene = Scene {
        spheres: [left, right, right],
        sphere_count: 2,
        camera: Camera { position: v3(0, 0, 0), focal_length: fx(1) },
        background_color: SKY,
        light: Light { position: v3(0, 10, 0) },
    };
    let sensor = scene.camera.get_sensor_position();
    let tilt = 2 * FX_ONE / 5;
    let leftward = scene.march_ray_for(Fx { raw: -tilt }, Fx { raw: 0 }, 50, sensor);
    assert_eq!(leftward, GREEN);
    let rightward = scene.march_ray_for(Fx { raw: tilt }, Fx { raw: 0 }, 50, sensor);
    assert_eq!(rightward, BLUE);
    let center = scene.march_ray_for(Fx { raw: 0 }, Fx { raw: 0 }, 50, sensor);
    assert_eq!(center, SKY);
}

#[test]
fn nearer_sphere_wins_on_the_shared_axis() {
    // Two spheres stacked along the view axis: the nearer one is struck.
    let near = sphere(0, 0, 5, 1, GREEN);
    let far = sphere(0, 0, 20, 3, BLUE);
    let scene = Scene {
        spheres: [near, far, far],
        sphere_count: 2,
        camera: Camera { position: v3(0, 0, 0), focal_length: fx(1) },
        background_color: SKY,
        light: Light { position: v3(0, 10, 0) },
    };
    let sensor = scene.camera.get_sensor_position();
    let c = scene.march_ray_for(Fx { raw: 0 }, Fx { raw: 0 }, 50, sensor);
    assert_eq!(c, GREEN);
}

#[test]
fn buffer_set_and_get_round_trip() {
    let mut buff = Buffer::new();
    assert_eq!(buff.pixels.len(), FRAME_PIXELS);
    assert_eq!(buff.get_at(0, 0), Color { rgb565: 0 });
    buff.set_at(160, 120, RED);
    assert_eq!(buff.get_at(160, 120), RED);
    assert_eq!(buff.get_at(160, 121), Color { rgb565: 0 });
    buff.clear(SKY);
    assert_eq!(buff.get_at(160, 120), SKY);
    assert_eq!(buff.get_at(RASTER_WIDTH - 1, RASTER_HEIGHT - 1), SKY);
}

#[test]
fn render_paints_hits_and_background() {
    // With a budget of two steps the center ray reaches the sphere (one
    // step of size three, then a hit) while the corner ray misses.
    let scene = one_sphere_scene(sphere(0, 0, 5, 2, RED));
    let mut buff = Buffer::new();
    scene.render(2, &mut buff);
    assert_eq!(buff.get_at(160, 120), RED);
    assert_eq!(buff.get_at(0, 0), SKY);
    assert_eq!(buff.get_at(RASTER_WIDTH - 1, RASTER_HEIGHT - 1), SKY);
}

#[test]
fn rendering_twice_is_pixel_identical() {
    // The same immutable scene rendered twice gives the same frame.
    let scene = one_sphere_scene(sphere(0, 0, 5, 2, RED));
    let mut first = Buffer::new();
    let mut second = Buffer::new();
    scene.render(2, &mut first);
    scene.render(2, &mut second);
    for i in 0..FRAME_PIXELS {
        assert_eq!(first.pixels[i], second.pixels[i], "pixel {i} differs");
    }
}
