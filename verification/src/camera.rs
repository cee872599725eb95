//! The camera: an orthonormal basis derived from look-from/look-at, a
//! viewport sized by the vertical field of view, and defocus blur from a
//! lens disc sample.

use vstd::prelude::*;
use crate::fixed::SCALE;
use crate::fixed::fx_add;
use crate::fixed::fx_add_s;
use crate::fixed::fx_div;
use crate::fixed::fx_div_s;
use crate::fixed::fx_mul;
use crate::fixed::fx_mul_s;
use crate::fixed::fx_sub;
use crate::fixed::fx_sub_s;
use crate::ray::Ray;
use crate::rng::random_point_in_unit_disc;
use crate::vec3::V3;
use crate::vec3::Vec3;
use crate::vec3::v3_add_s;
use crate::vec3::v3_cross_s;
use crate::vec3::v3_div_fx_s;
use crate::vec3::v3_lsq_s;
use crate::vec3::v3_norm_s;
use crate::vec3::v3_scale_s;
use crate::vec3::v3_sub_s;
use crate::vec3::vec3;

verus! {

/// Pi in fixed-point raw units.
pub const PI_FX: i64 = 205887;

/// The raw value of one half.
pub const HALF_FX: i64 = 32768;

/// The raw value of two.
pub const TWO_FX: i64 = 131072;

/// Degrees to radians: multiply by pi, divide by 180.
pub open spec fn deg2rad_s(d: int) -> int {
    fx_div_s(fx_mul_s(d, PI_FX as int), 180 * (SCALE as int))
}

/// Truncated Maclaurin sine, accurate to a few raw units for half-field
/// angles below a right angle.
pub open spec fn sin_s(x: int) -> int {
    let x2 = fx_mul_s(x, x);
    let x3 = fx_mul_s(x2, x);
    let x5 = fx_mul_s(x3, x2);
    let x7 = fx_mul_s(x5, x2);
    fx_add_s(
        fx_sub_s(fx_sub_s(x, fx_div_s(x3, 6 * (SCALE as int))), fx_div_s(x7, 5040 * (SCALE as int))),
        fx_div_s(x5, 120 * (SCALE as int)),
    )
}

/// Truncated Maclaurin cosine with the same reach as `sin_s`.
pub open spec fn cos_s(x: int) -> int {
    let x2 = fx_mul_s(x, x);
    let x4 = fx_mul_s(x2, x2);
    let x6 = fx_mul_s(x4, x2);
    fx_add_s(
        fx_sub_s(fx_sub_s(SCALE as int, fx_div_s(x2, 2 * (SCALE as int))), fx_div_s(x6, 720 * (SCALE as int))),
        fx_div_s(x4, 24 * (SCALE as int)),
    )
}

/// Tangent as the quotient of the series sine and cosine.
pub open spec fn tan_s(x: int) -> int {
    fx_div_s(sin_s(x), cos_s(x))
}

/// Degrees to radians.
pub fn deg2rad(d: i64) -> (r: i64)
    ensures
        r as int == deg2rad_s(d as int),
{
    fx_div(fx_mul(d, PI_FX), 11796480)
}

/// Series sine.
pub fn sin_fx(x: i64) -> (r: i64)
    ensures
        r as int == sin_s(x as int),
{
    let x2: i64 = fx_mul(x, x);
    let x3: i64 = fx_mul(x2, x);
    let x5: i64 = fx_mul(x3, x2);
    let x7: i64 = fx_mul(x5, x2);
    fx_add(fx_sub(fx_sub(x, fx_div(x3, 393216)), fx_div(x7, 330301440)), fx_div(x5, 7864320))
}

/// Series cosine.
pub fn cos_fx(x: i64) -> (r: i64)
    ensures
        r as int == cos_s(x as int),
{
    let x2: i64 = fx_mul(x, x);
    let x4: i64 = fx_mul(x2, x2);
    let x6: i64 = fx_mul(x4, x2);
    fx_add(fx_sub(fx_sub(SCALE, fx_div(x2, 131072)), fx_div(x6, 47185920)), fx_div(x4, 1572864))
}

/// Series tangent.
pub fn tan_fx(x: i64) -> (r: i64)
    ensures
        r as int == tan_s(x as int),
{
    fx_div(sin_fx(x), cos_fx(x))
}

/// An immutable camera: the derived basis, viewport vectors and lens
/// radius.
pub struct Camera {
    pub origin: Vec3,
    pub horizontal: Vec3,
    pub vertical: Vec3,
    pub lower_left_corner: Vec3,
    pub u: Vec3,
    pub v: Vec3,
    pub lens_radius: i64,
}

/// The camera's forward-opposite basis vector.
pub open spec fn cam_w_s(look_from: V3, look_at: V3) -> V3 {
    v3_norm_s(v3_sub_s(look_from, look_at))
}

/// The camera's right basis vector.
pub open spec fn cam_u_s(look_from: V3, look_at: V3) -> V3 {
    v3_norm_s(v3_cross_s(V3 { x: 0, y: SCALE as int, z: 0 }, cam_w_s(look_from, look_at)))
}

/// The camera's up basis vector.
pub open spec fn cam_v_s(look_from: V3, look_at: V3) -> V3 {
    v3_cross_s(cam_w_s(look_from, look_at), cam_u_s(look_from, look_at))
}

/// The viewport height determined by the vertical field of view.
pub open spec fn viewport_height_s(vertical_fov: int) -> int {
    fx_mul_s(TWO_FX as int, tan_s(fx_div_s(deg2rad_s(vertical_fov), TWO_FX as int)))
}

/// A point in the z = 0 plane strictly inside the unit disc.
pub open spec fn in_unit_disc_s(p: V3) -> bool {
    v3_lsq_s(p) < SCALE as int && p.z == 0
}

/// `r` is the ray the camera shoots at normalized image coordinates
/// `(s, t)` when the lens sample is `p`: the origin is offset along the
/// camera's basis by the lens-scaled sample, and the ray aims at the
/// viewport point for `(s, t)`.
pub open spec fn camera_ray_s(cam: Camera, s: int, t: int, p: V3, r: Ray) -> bool {
    let rd = v3_scale_s(p, cam.lens_radius as int);
    let offset = v3_add_s(v3_scale_s(cam.u@, rd.x), v3_scale_s(cam.v@, rd.y));
    r.origin@ == v3_add_s(cam.origin@, offset) && r.dir@ == v3_sub_s(
        v3_sub_s(
            v3_add_s(
                v3_add_s(cam.lower_left_corner@, v3_scale_s(cam.horizontal@, s)),
                v3_scale_s(cam.vertical@, t),
            ),
            cam.origin@,
        ),
        offset,
    )
}

impl Camera {
    /// Derive the basis and viewport from the look points, vertical field
    /// of view (degrees), aspect ratio, aperture and focus distance.
    pub fn new(
        look_from: Vec3,
        look_at: Vec3,
        vertical_fov: i64,
        aspect_ratio: i64,
        aperture: i64,
        focus_dist: i64,
    ) -> (c: Camera)
        ensures
            c.origin == look_from,
            c.u@ == cam_u_s(look_from@, look_at@),
            c.v@ == cam_v_s(look_from@, look_at@),
            c.horizontal@ == v3_scale_s(
                v3_scale_s(cam_u_s(look_from@, look_at@), focus_dist as int),
                fx_mul_s(viewport_height_s(vertical_fov as int), aspect_ratio as int),
            ),
            c.vertical@ == v3_scale_s(
                v3_scale_s(cam_v_s(look_from@, look_at@), focus_dist as int),
                viewport_height_s(vertical_fov as int),
            ),
            c.lower_left_corner@ == v3_sub_s(
                v3_sub_s(
                    v3_sub_s(look_from@, v3_div_fx_s(c.horizontal@, TWO_FX as int)),
                    v3_div_fx_s(c.vertical@, TWO_FX as int),
                ),
                v3_scale_s(cam_w_s(look_from@, look_at@), focus_dist as int),
            ),
            c.lens_radius as int == fx_div_s(aperture as int, TWO_FX as int),
    {
        let theta: i64 = deg2rad(vertical_fov);
        let h: i64 = tan_fx(fx_div(theta, TWO_FX));
        let viewport_height: i64 = fx_mul(TWO_FX, h);
        let viewport_width: i64 = fx_mul(viewport_height, aspect_ratio);

        let up: Vec3 = vec3(0, SCALE, 0);

        let w: Vec3 = look_from.sub(look_at).normalize();
        let u: Vec3 = up.cross(w).normalize();
        let v: Vec3 = w.cross(u);

        let origin: Vec3 = look_from;
        let horizontal: Vec3 = u.scale(focus_dist).scale(viewport_width);
        let vertical: Vec3 = v.scale(focus_dist).scale(viewport_height);

        Camera {
            u,
            v,
            origin,
            horizontal,
            vertical,
            lower_left_corner: origin.sub(horizontal.div_fx(TWO_FX)).sub(
                vertical.div_fx(TWO_FX),
            ).sub(w.scale(focus_dist)),
            lens_radius: fx_div(aperture, TWO_FX),
        }
    }

    /// The ray for normalized image coordinates `(s, t)`: its origin is
    /// jittered on the lens disc and it aims at the corresponding viewport
    /// point.
    pub fn get_ray(&self, s: i64, t: i64, rng: &mut rand::rngs::StdRng) -> (r: Ray)
        ensures
            exists|p: V3|
                in_unit_disc_s(p) && #[trigger] camera_ray_s(*self, s as int, t as int, p, r),
    {
        let p: Vec3 = random_point_in_unit_disc(rng);
        let rd: Vec3 = p.scale(self.lens_radius);
        let offset: Vec3 = self.u.scale(rd.x).add(self.v.scale(rd.y));
        let origin: Vec3 = self.origin.add(offset);
        let dir: Vec3 = self.lower_left_corner.add(self.horizontal.scale(s)).add(
            self.vertical.scale(t),
        ).sub(self.origin).sub(offset);
        let r: Ray = Ray { origin, dir };
        proof {
            assert(in_unit_disc_s(p@) && camera_ray_s(*self, s as int, t as int, p@, r));
        }
        r
    }
}

} // verus!
