//! The scene model and the per-pixel sphere tracer.
//!
//! A scene is a camera, a background color and a fixed-capacity collection
//! of implicit spheres (up to three, with an explicit count — never a
//! growable collection). For each pixel of the sensor plane the marcher
//! casts a ray and steps it forward by the scene's minimum signed distance,
//! under a caller-supplied iteration budget; colors land in an in-memory
//! frame buffer, and pushing that buffer to a physical display is the
//! caller's concern.

use vstd::prelude::*;

use crate::color::Color;
use crate::fixed;
use crate::fixed::{Fx, fx_sub_v};
use crate::vec::{Vec3, v3_add_v, v3_dot_v, v3_mag_v, v3_normalize_v, v3_scale_v, v3_sub_v};

verus! {

/// Pixel columns of the nominal display resolution.
pub const SCREEN_WIDTH: usize = 320;

/// Pixel rows of the nominal display resolution.
pub const SCREEN_HEIGHT: usize = 240;

/// Columns actually rendered: the sensor is sampled on the inclusive pixel
/// range, one column beyond the nominal resolution.
pub const RASTER_WIDTH: usize = 321;

/// Rows actually rendered: one row beyond the nominal resolution.
pub const RASTER_HEIGHT: usize = 241;

/// Pixels of one full frame.
pub const FRAME_PIXELS: usize = 77361;

/// A ray closer to a surface than this is a hit: 0.1 units, in raw
/// fixed-point form.
pub const HIT_THRESHOLD_RAW: i64 = 104858;

/// Half the display's width-to-height ratio, in raw fixed-point form:
/// the horizontal view-plane coordinate spans `[-2/3, 2/3]`.
pub const HALF_RATIO_RAW: i64 = 699051;

/// Half of one, in raw fixed-point form: the vertical view-plane
/// coordinate spans `[-1/2, 1/2]`.
pub const HALF_ONE_RAW: i64 = 524288;

/// An implicit sphere with a flat color.
#[derive(Clone, Copy, PartialEq, Eq, Structural, Debug)]
pub struct Sphere {
    pub position: Vec3,
    pub radius: Fx,
    pub color: Color,
}

/// A light placeholder; declared for scene descriptions but not consumed
/// by the marching or shading logic — a reserved extension point.
#[derive(Clone, Copy, PartialEq, Eq, Structural, Debug)]
pub struct Light {
    pub position: Vec3,
}

/// A fixed-orientation camera: a position and a focal length along the
/// one forward axis.
#[derive(Clone, Copy, PartialEq, Eq, Structural, Debug)]
pub struct Camera {
    pub position: Vec3,
    pub focal_length: Fx,
}

/// The signed distance from a point to a sphere's surface, on raw values:
/// negative inside, zero on the surface, positive outside.
pub open spec fn sphere_dist_v(s: Sphere, p: Vec3) -> int {
    fx_sub_v(v3_mag_v(v3_sub_v(s.position, p)), s.radius.v())
}

impl Sphere {
    /// Position and radius lie within the fixed-point range, with a
    /// positive radius.
    pub open spec fn ok(self) -> bool {
        self.position.ok() && self.radius.ok() && self.radius.v() >= 1
    }

    /// The signed distance from `position` to this sphere's surface.
    pub fn distance_with(self, position: Vec3) -> (r: Fx)
        requires
            self.ok(),
            position.ok(),
        ensures
            r.ok(),
            r.v() == sphere_dist_v(self, position),
    {
        let delta = self.position.sub(position).magnitude();
        fixed::fx_sub(delta, self.radius)
    }

    /// The color a ray that struck this sphere resolves to. The travel
    /// distance is a hook for distance-based shading and is ignored today:
    /// the sphere's flat color comes back.
    pub fn get_ray_color(self, _ray_distance: Fx) -> (c: Color)
        ensures
            c == self.color,
    {
        self.color
    }
}

/// The camera's sensor plane point: the position, backed off along the
/// forward axis by the focal length.
pub open spec fn sensor_position_v(c: Camera) -> Vec3 {
    Vec3 {
        x: c.position.x,
        y: c.position.y,
        z: Fx { raw: fx_sub_v(c.position.z.v(), c.focal_length.v()) as i64 },
    }
}

impl Camera {
    /// Position and focal length lie within the fixed-point range, with a
    /// positive focal length.
    pub open spec fn ok(self) -> bool {
        self.position.ok() && self.focal_length.ok() && self.focal_length.v() >= 1
    }

    /// The point behind the camera from which view rays fan out.
    pub fn get_sensor_position(self) -> (r: Vec3)
        requires
            self.ok(),
        ensures
            r.ok(),
            r == sensor_position_v(self),
    {
        let z = fixed::fx_sub(self.position.z, self.focal_length);
        Vec3 { x: self.position.x, y: self.position.y, z }
    }
}

/// The render-time configuration: immutable for the duration of one
/// render call.
pub struct Scene {
    /// Fixed-capacity sphere storage; only the first `sphere_count`
    /// entries take part in rendering.
    pub spheres: [Sphere; 3],
    /// How many entries of `spheres` are live: at least one, at most the
    /// capacity.
    pub sphere_count: usize,
    pub camera: Camera,
    pub background_color: Color,
    pub light: Light,
}

/// The running minimum of the spheres' distances from index `i` on, seeded
/// with the best seen so far; an earlier sphere keeps ties. This mirrors
/// the marcher's forward scan.
pub open spec fn best_fold_v(s: Scene, p: Vec3, i: int, acc_d: int, acc_s: Sphere) -> (int, Sphere)
    decreases s.sphere_count - i,
{
    if i < 0 || i >= s.sphere_count {
        (acc_d, acc_s)
    } else {
        let d = sphere_dist_v(s.spheres@[i], p);
        if d < acc_d {
            best_fold_v(s, p, i + 1, d, s.spheres@[i])
        } else {
            best_fold_v(s, p, i + 1, acc_d, acc_s)
        }
    }
}

/// The scene's aggregate signed distance at a point — the minimum over all
/// live spheres — together with the sphere that achieved it (the first, on
/// ties).
pub open spec fn march_radius_v(s: Scene, p: Vec3) -> (int, Sphere) {
    best_fold_v(s, p, 1, sphere_dist_v(s.spheres@[0], p), s.spheres@[0])
}

/// One ray marched from `pos` along `dir` with `fuel` steps left: step
/// forward by the scene's minimum distance until that minimum falls under
/// the hit threshold (the achieving sphere's color) or the budget runs out
/// (the background color).
pub open spec fn march_v(s: Scene, pos: Vec3, dir: Vec3, fuel: nat) -> Color
    decreases fuel,
{
    if fuel == 0 {
        s.background_color
    } else {
        let dres = march_radius_v(s, pos);
        if dres.0 < HIT_THRESHOLD_RAW as int {
            dres.1.color
        } else {
            march_v(s, v3_add_v(pos, v3_scale_v(dir, dres.0)), dir, (fuel - 1) as nat)
        }
    }
}

/// The color of the ray cast through view-plane coordinate `(x, y)`: its
/// origin sits on the camera's depth plane and its direction runs from the
/// sensor point through the origin.
pub open spec fn ray_color_v(s: Scene, x: Fx, y: Fx, fuel: nat, sensor: Vec3) -> Color {
    let origin = Vec3 { x, y, z: s.camera.position.z };
    let dir = v3_normalize_v(v3_sub_v(origin, sensor));
    march_v(s, origin, dir, fuel)
}

/// The horizontal view-plane coordinate of a pixel column, on raw values:
/// the column scaled by the vertical resolution, shifted to put zero at
/// the image center.
pub open spec fn view_x_v(sx: int) -> int {
    (sx * 1048576) / 240 - HALF_RATIO_RAW as int
}

/// The vertical view-plane coordinate of a pixel row, on raw values.
pub open spec fn view_y_v(sy: int) -> int {
    (sy * 1048576) / 240 - HALF_ONE_RAW as int
}

/// The color render gives the pixel at column `sx`, row `sy`.
pub open spec fn pixel_color_v(s: Scene, fuel: nat, sx: int, sy: int) -> Color {
    ray_color_v(
        s,
        Fx { raw: view_x_v(sx) as i64 },
        Fx { raw: view_y_v(sy) as i64 },
        fuel,
        sensor_position_v(s.camera),
    )
}

/// The full frame render produces: pixels in column-major order, one
/// entry per raster cell.
pub open spec fn image_v(s: Scene, fuel: nat) -> Seq<Color> {
    Seq::new(
        FRAME_PIXELS as nat,
        |i: int| pixel_color_v(s, fuel, i / (RASTER_HEIGHT as int), i % (RASTER_HEIGHT as int)),
    )
}

/// An in-memory frame buffer holding one color per raster cell, in
/// column-major order.
pub struct Buffer {
    pub pixels: Vec<Color>,
}

impl Buffer {
    /// The buffer holds exactly one full frame.
    pub open spec fn wf(self) -> bool {
        self.pixels@.len() == FRAME_PIXELS as int
    }

    /// A frame buffer of black pixels.
    pub fn new() -> (b: Buffer)
        ensures
            b.wf(),
            forall|i: int| 0 <= i < FRAME_PIXELS as int ==> b.pixels@[i] == (Color { rgb565: 0u16 }),
    {
        let mut pixels: Vec<Color> = Vec::new();
        let mut i: usize = 0;
        while i < FRAME_PIXELS
            invariant
                i <= FRAME_PIXELS,
                pixels@.len() == i as int,
                forall|j: int| 0 <= j < i as int ==> pixels@[j] == (Color { rgb565: 0u16 }),
            decreases FRAME_PIXELS - i,
        {
            pixels.push(Color { rgb565: 0u16 });
            i += 1;
        }
        Buffer { pixels }
    }

    /// Set every pixel to one color.
    pub fn clear(&mut self, color: Color)
        ensures
            final(self).wf(),
            forall|i: int| 0 <= i < FRAME_PIXELS as int ==> final(self).pixels@[i] == color,
    {
        let mut pixels: Vec<Color> = Vec::new();
        let mut i: usize = 0;
        while i < FRAME_PIXELS
            invariant
                i <= FRAME_PIXELS,
                pixels@.len() == i as int,
                forall|j: int| 0 <= j < i as int ==> pixels@[j] == color,
            decreases FRAME_PIXELS - i,
        {
            pixels.push(color);
            i += 1;
        }
        self.pixels = pixels;
    }

    /// Write one pixel. Coordinates run over the inclusive raster ranges.
    pub fn set_at(&mut self, x: usize, y: usize, color: Color)
        requires
            old(self).wf(),
            x < RASTER_WIDTH,
            y < RASTER_HEIGHT,
        ensures
            final(self).wf(),
            final(self).pixels@ == old(self).pixels@.update(
                x as int * RASTER_HEIGHT as int + y as int,
                color,
            ),
    {
        let ix: usize = x * RASTER_HEIGHT + y;
        proof {
            assert((x as int) * 241 + (y as int) < 77361) by (nonlinear_arith)
                requires
                    (x as int) <= 320,
                    (y as int) <= 240,
            ;
        }
        self.pixels[ix] = color;
    }

    /// Read one pixel back.
    pub fn get_at(&self, x: usize, y: usize) -> (c: Color)
        requires
            self.wf(),
            x < RASTER_WIDTH,
            y < RASTER_HEIGHT,
        ensures
            c == self.pixels@[x as int * RASTER_HEIGHT as int + y as int],
    {
        let ix: usize = x * RASTER_HEIGHT + y;
        proof {
            assert((x as int) * 241 + (y as int) < 77361) by (nonlinear_arith)
                requires
                    (x as int) <= 320,
                    (y as int) <= 240,
            ;
        }
        self.pixels[ix]
    }
}

impl Scene {
    /// The scene is fit to render: a live sphere count within capacity,
    /// and every entity within the fixed-point range.
    pub open spec fn wf(self) -> bool {
        &&& 1 <= self.sphere_count <= 3
        &&& self.camera.ok()
        &&& self.light.position.ok()
        &&& forall|i: int| 0 <= i < 3 ==> (#[trigger] self.spheres@[i]).ok()
    }

    /// The scene's minimum signed distance at a point, and the sphere that
    /// achieved it (the first seen, on ties).
    pub fn march_radius_at(&self, position: Vec3) -> (r: (Fx, Sphere))
        requires
            self.wf(),
            position.ok(),
        ensures
            r.0.ok(),
            r.0.v() == march_radius_v(*self, position).0,
            r.1 == march_radius_v(*self, position).1,
    {
        let mut min_distance = self.spheres[0].distance_with(position);
        let mut closest_sphere = self.spheres[0];
        let mut i: usize = 1;
        while i < self.sphere_count
            invariant
                self.wf(),
                position.ok(),
                1 <= i <= self.sphere_count,
                min_distance.ok(),
                best_fold_v(*self, position, i as int, min_distance.v(), closest_sphere)
                    == march_radius_v(*self, position),
            decreases self.sphere_count - i,
        {
            let distance = self.spheres[i].distance_with(position);
            if distance.raw < min_distance.raw {
                min_distance = distance;
                closest_sphere = self.spheres[i];
            }
            i += 1;
        }
        (min_distance, closest_sphere)
    }

    /// March one ray through view-plane coordinate `(x, y)` under the
    /// given iteration budget and resolve its color.
    pub fn march_ray_for(
        &self,
        x: Fx,
        y: Fx,
        max_iteration: u16,
        camera_sensor_position: Vec3,
    ) -> (c: Color)
        requires
            self.wf(),
            x.ok(),
            y.ok(),
            camera_sensor_position.ok(),
        ensures
            c == ray_color_v(*self, x, y, max_iteration as nat, camera_sensor_position),
    {
        let mut current_position = Vec3::new(x, y, self.camera.position.z);
        let start_position = current_position;
        let mut ray_direction = current_position.sub(camera_sensor_position);
        ray_direction.normalize();
        let mut it: u16 = 0;
        while it < max_iteration
            invariant
                self.wf(),
                current_position.ok(),
                ray_direction.ok(),
                start_position.ok(),
                it <= max_iteration,
                ray_color_v(*self, x, y, max_iteration as nat, camera_sensor_position)
                    == march_v(*self, current_position, ray_direction, (max_iteration - it) as nat),
            decreases max_iteration - it,
        {
            let (march_radius, closest_sphere) = self.march_radius_at(current_position);
            if march_radius.raw < HIT_THRESHOLD_RAW {
                let travel_distance = current_position.sub(start_position).magnitude();
                return closest_sphere.get_ray_color(travel_distance);
            }
            current_position = current_position.add(ray_direction.mul(march_radius));
            it = it + 1;
        }
        self.background_color
    }

    /// Render the whole frame into the buffer: every raster cell, in
    /// column-major order, gets the color of the ray through it. The
    /// result is a function of the scene and the budget alone.
    pub fn render(&self, max_iteration: u16, buff: &mut Buffer)
        requires
            self.wf(),
            old(buff).wf(),
        ensures
            final(buff).wf(),
            final(buff).pixels@ == image_v(*self, max_iteration as nat),
    {
        let camera_sensor_position = self.camera.get_sensor_position();
        let mut screen_x: usize = 0;
        while screen_x < RASTER_WIDTH
            invariant
                self.wf(),
                buff.wf(),
                screen_x <= RASTER_WIDTH,
                camera_sensor_position == sensor_position_v(self.camera),
                camera_sensor_position.ok(),
                forall|xi: int, yi: int|
                    0 <= xi < screen_x as int && 0 <= yi < RASTER_HEIGHT as int
                        ==> buff.pixels@[xi * RASTER_HEIGHT as int + yi]
                            == pixel_color_v(*self, max_iteration as nat, xi, yi),
            decreases RASTER_WIDTH - screen_x,
        {
            let x = Fx { raw: ((screen_x as u64 * 1048576) / 240) as i64 - HALF_RATIO_RAW };
            let mut screen_y: usize = 0;
            while screen_y < RASTER_HEIGHT
                invariant
                    self.wf(),
                    buff.wf(),
                    screen_x < RASTER_WIDTH,
                    screen_y <= RASTER_HEIGHT,
                    camera_sensor_position == sensor_position_v(self.camera),
                    camera_sensor_position.ok(),
                    x.raw as int == view_x_v(screen_x as int),
                    x.ok(),
                    forall|xi: int, yi: int|
                        0 <= xi < screen_x as int && 0 <= yi < RASTER_HEIGHT as int
                            ==> buff.pixels@[xi * RASTER_HEIGHT as int + yi]
                                == pixel_color_v(*self, max_iteration as nat, xi, yi),
                    forall|yi: int|
                        0 <= yi < screen_y as int
                            ==> buff.pixels@[screen_x as int * RASTER_HEIGHT as int + yi]
                                == pixel_color_v(*self, max_iteration as nat, screen_x as int, yi),
                decreases RASTER_HEIGHT - screen_y,
            {
                let y = Fx { raw: ((screen_y as u64 * 1048576) / 240) as i64 - HALF_ONE_RAW };
                let color = self.march_ray_for(x, y, max_iteration, camera_sensor_position);
                buff.set_at(screen_x, screen_y, color);
                screen_y += 1;
            }
            screen_x += 1;
        }
        proof {
            let fuel = max_iteration as nat;
            assert forall|i: int| 0 <= i < FRAME_PIXELS as int implies buff.pixels@[i]
                == pixel_color_v(*self, fuel, i / (RASTER_HEIGHT as int), i % (RASTER_HEIGHT as int)) by {
                let xi = i / (RASTER_HEIGHT as int);
                let yi = i % (RASTER_HEIGHT as int);
                assert(0 <= xi < RASTER_WIDTH as int && 0 <= yi < RASTER_HEIGHT as int);
                vstd::arithmetic::div_mod::lemma_fundamental_div_mod(i, RASTER_HEIGHT as int);
                assert(i == xi * (RASTER_HEIGHT as int) + yi);
                assert(buff.pixels@[xi * (RASTER_HEIGHT as int) + yi] == pixel_color_v(*self, fuel, xi, yi));
            };
            assert(buff.pixels@ =~= image_v(*self, fuel));
        }
    }
}

/// The running minimum is what it says: the fold's distance undercuts the
/// seed and every sphere from `i` on, and the result is the seed pair or
/// one of those spheres with its own distance.
proof fn lemma_best_fold_min(s: Scene, p: Vec3, i: int, acc_d: int, acc_s: Sphere)
    requires
        0 <= i,
    ensures
        best_fold_v(s, p, i, acc_d, acc_s).0 <= acc_d,
        forall|j: int|
            i <= j < s.sphere_count ==> best_fold_v(s, p, i, acc_d, acc_s).0
                <= sphere_dist_v(#[trigger] s.spheres@[j], p),
        best_fold_v(s, p, i, acc_d, acc_s) == (acc_d, acc_s) || exists|j: int|
            i <= j < s.sphere_count && best_fold_v(s, p, i, acc_d, acc_s) == (
            sphere_dist_v(#[trigger] s.spheres@[j], p),
            s.spheres@[j],
            ),
    decreases s.sphere_count - i,
{
    if i >= s.sphere_count {
    } else {
        let d = sphere_dist_v(s.spheres@[i], p);
        if d < acc_d {
            lemma_best_fold_min(s, p, i + 1, d, s.spheres@[i]);
        } else {
            lemma_best_fold_min(s, p, i + 1, acc_d, acc_s);
        }
    }
}

/// The scene's aggregate distance field is the union of its spheres'
/// fields: at any point it is the minimum of the live spheres' signed
/// distances, and the sphere handed back achieves it.
pub proof fn lemma_march_radius_is_union_min(s: Scene, p: Vec3)
    requires
        s.wf(),
    ensures
        forall|j: int|
            0 <= j < s.sphere_count ==> march_radius_v(s, p).0 <= sphere_dist_v(
                #[trigger] s.spheres@[j],
                p,
            ),
        exists|j: int|
            0 <= j < s.sphere_count && march_radius_v(s, p) == (
            sphere_dist_v(#[trigger] s.spheres@[j], p),
            s.spheres@[j],
            ),
{
    lemma_best_fold_min(s, p, 1, sphere_dist_v(s.spheres@[0], p), s.spheres@[0]);
    assert(march_radius_v(s, p) == (sphere_dist_v(s.spheres@[0], p), s.spheres@[0])
        ==> march_radius_v(s, p) == (sphere_dist_v(s.spheres@[0int], p), s.spheres@[0int]));
}

/// A point whose computed squared distance to a sphere's center brackets
/// the squared radius within `k` units of length has a signed distance
/// within `k` of zero: points reached as `center + radius * unit` lie on
/// the surface up to the format's rounding.
pub proof fn lemma_sphere_surface_brackets(s: Sphere, p: Vec3, k: int)
    requires
        s.ok(),
        p.ok(),
        0 <= k <= s.radius.v(),
        (s.radius.v() - k) * (s.radius.v() - k) <= v3_dot_v(v3_sub_v(s.position, p), v3_sub_v(s.position, p)) * 1048576,
        v3_dot_v(v3_sub_v(s.position, p), v3_sub_v(s.position, p)) * 1048576 < (s.radius.v() + k + 1) * (s.radius.v() + k + 1),
    ensures
        -k <= sphere_dist_v(s, p) <= k,
{
    let delta = v3_sub_v(s.position, p);
    let m2 = v3_dot_v(delta, delta);
    crate::vec::lemma_v3_dot_self_nonneg(delta);
    let n = (m2 * 1048576) as nat;
    let r = s.radius.v();
    fixed::lemma_floor_sqrt_ge(n, (r - k) as nat);
    fixed::lemma_floor_sqrt_lt(n, (r + k + 1) as nat);
    let mag = fixed::sqrt_v(m2);
    assert(r - k <= mag <= r + k);
    assert(mag < 67108865) by {
        fixed::lemma_floor_sqrt_lt(n, 67108865nat);
        assert(n < 67108865nat * 67108865nat) by (nonlinear_arith)
            requires
                n <= 2147483648 * 1048576,
        ;
    }
}

/// A point strictly inside a sphere — its computed squared distance to the
/// center falls short of the squared radius — has a negative signed
/// distance.
pub proof fn lemma_sphere_interior_negative(s: Sphere, p: Vec3)
    requires
        s.ok(),
        p.ok(),
        v3_dot_v(v3_sub_v(s.position, p), v3_sub_v(s.position, p)) * 1048576 < s.radius.v() * s.radius.v(),
    ensures
        sphere_dist_v(s, p) < 0,
{
    let delta = v3_sub_v(s.position, p);
    let m2 = v3_dot_v(delta, delta);
    crate::vec::lemma_v3_dot_self_nonneg(delta);
    let n = (m2 * 1048576) as nat;
    fixed::lemma_floor_sqrt_lt(n, s.radius.v() as nat);
    assert(fixed::sqrt_v(m2) < s.radius.v());
}

/// Rendering is a pure function of the scene and the iteration budget:
/// two renders of the same immutable scene produce pixel-identical
/// frames, because `render` promises its output equals `image_v` of the
/// scene alone.
pub proof fn lemma_render_twice_identical(s: &Scene, max_iteration: u16, frame1: Seq<Color>, frame2: Seq<Color>)
    requires
        frame1 == image_v(*s, max_iteration as nat),
        frame2 == image_v(*s, max_iteration as nat),
    ensures
        frame1 == frame2,
{
}

} // verus!
