//! The recursive radiance estimator and the per-pixel render loop.

use vstd::prelude::*;
use vstd::arithmetic::div_mod::lemma_div_by_multiple;
use vstd::arithmetic::div_mod::lemma_div_is_ordered;
use vstd::arithmetic::div_mod::lemma_div_pos_is_pos;
use vstd::arithmetic::div_mod::lemma_fundamental_div_mod_converse;
use vstd::arithmetic::mul::lemma_mul_inequality;
use vstd::arithmetic::mul::lemma_mul_is_commutative;
use vstd::arithmetic::mul::lemma_mul_is_distributive_add_other_way;
use vstd::arithmetic::mul::lemma_mul_nonnegative;
use crate::camera::Camera;
use crate::camera::camera_ray_s;
use crate::camera::in_unit_disc_s;
use crate::camera::HALF_FX;
use crate::fixed::SCALE;
use crate::fixed::fx_add;
use crate::fixed::fx_add_s;
use crate::fixed::fx_div;
use crate::fixed::fx_div_s;
use crate::fixed::fx_mul_s;
use crate::fixed::fx_of_u32;
use crate::fixed::fx_sub_s;
use crate::fixed::lemma_fx_mul_unit_le;
use crate::fixed::lemma_fx_mul_zero;
use crate::fixed::lemma_tdiv_exact;
use crate::hittable::Sphere;
use crate::hittable::World;
use crate::hittable::world_hit_s;
use crate::material::Material;
use crate::material::scatter_attenuation_s;
use crate::vec3::v3_cmul_s;
use crate::ray::Ray;
use crate::rng::random_fx;
use crate::vec3::V3;
use crate::vec3::Vec3;
use crate::vec3::v3_add_s;
use crate::vec3::v3_clamp_s;
use crate::vec3::v3_div_fx_s;
use crate::vec3::v3_norm_s;
use crate::vec3::v3_scale_s;
use crate::vec3::v3_sqrt_s;
use crate::vec3::v3_zero;

verus! {

/// The small positive lower intersection bound that keeps a bounce from
/// re-hitting its own origin (shadow acne), about 0.001 units.
pub const SHADOW_ACNE_T: i64 = 66;

/// The upper intersection bound of the radiance estimator: the largest
/// representable parameter, so the estimator searches the whole ray.
pub const MAX_TRACE_T: i64 = i64::MAX;

/// The sky's zenith color, a light blue.
pub open spec fn sky_blue_s() -> V3 {
    V3 { x: HALF_FX as int, y: 45875, z: SCALE as int }
}

/// White.
pub open spec fn white_s() -> V3 {
    V3 { x: SCALE as int, y: SCALE as int, z: SCALE as int }
}

/// The background gradient: blend white into sky blue by
/// `t = (unit_dir.y + 1) / 2`.
pub open spec fn sky_color_s(r: Ray) -> V3 {
    let t = fx_mul_s(HALF_FX as int, fx_add_s(v3_norm_s(r.dir@).y, SCALE as int));
    v3_add_s(
        v3_scale_s(white_s(), fx_sub_s(SCALE as int, t)),
        v3_scale_s(sky_blue_s(), t),
    )
}

/// The sky gradient stays within the unit color cube — red and green in
/// `[0, 1]`, blue exactly one — whenever the normalized direction's height
/// lies in the unit range, as it does for every geometrically meaningful
/// ray. (A direction whose components are far above one unit can normalize
/// to a vector of height beyond one in saturating fixed point; the claim
/// excludes those.)
pub proof fn lemma_sky_color_in_unit_range(r: Ray)
    requires
        -(SCALE as int) <= v3_norm_s(r.dir@).y <= SCALE as int,
    ensures
        0 <= sky_color_s(r).x <= SCALE as int,
        0 <= sky_color_s(r).y <= SCALE as int,
        sky_color_s(r).z == SCALE as int,
{
    let sc = SCALE as int;
    let hf = HALF_FX as int;
    let uy = v3_norm_s(r.dir@).y;
    let a = fx_add_s(uy, sc);
    assert(a == uy + sc);
    let t = fx_mul_s(hf, a);
    assert(0 <= t <= sc) by {
        lemma_mul_nonnegative(hf, a);
        lemma_div_pos_is_pos(hf * a, sc);
        lemma_mul_inequality(a, 2 * sc, hf);
        assert(hf * a == a * hf && (2 * sc) * hf == 65536 * sc) by (nonlinear_arith)
            requires
                hf == 32768,
                sc == 65536,
        ;
        lemma_div_is_ordered(hf * a, 65536 * sc, sc);
        lemma_div_by_multiple(65536, sc);
    }
    let omt = fx_sub_s(sc, t);
    assert(omt == sc - t);
    assert(fx_mul_s(sc, omt) == omt && fx_mul_s(sc, t) == t) by {
        assert(sc * omt == omt * sc && sc * t == t * sc) by (nonlinear_arith);
        lemma_tdiv_exact(omt);
        lemma_tdiv_exact(t);
    }
    assert(0 <= fx_mul_s(hf, t) <= t) by {
        assert(hf * t == t * hf) by (nonlinear_arith);
        lemma_fx_mul_unit_le(t, hf);
    }
    assert(0 <= fx_mul_s(45875, t) <= t) by {
        assert(45875 * t == t * 45875) by (nonlinear_arith);
        lemma_fx_mul_unit_le(t, 45875);
    }
}

/// One attenuated bounce keeps a radiance value inside the unit color
/// cube: a componentwise product of two colors in `[0, 1]^3` stays there.
pub proof fn lemma_bounce_in_unit_range(att: V3, bounce: V3)
    requires
        0 <= att.x <= SCALE as int,
        0 <= att.y <= SCALE as int,
        0 <= att.z <= SCALE as int,
        0 <= bounce.x <= SCALE as int,
        0 <= bounce.y <= SCALE as int,
        0 <= bounce.z <= SCALE as int,
    ensures
        0 <= v3_cmul_s(att, bounce).x <= SCALE as int,
        0 <= v3_cmul_s(att, bounce).y <= SCALE as int,
        0 <= v3_cmul_s(att, bounce).z <= SCALE as int,
{
    lemma_fx_mul_unit_le(att.x, bounce.x);
    lemma_fx_mul_unit_le(att.y, bounce.y);
    lemma_fx_mul_unit_le(att.z, bounce.z);
}

/// The background color for a ray that escapes the scene.
pub fn sky_color(ray: &Ray) -> (c: Vec3)
    ensures
        c@ == sky_color_s(*ray),
{
    let unit: Vec3 = ray.dir.normalize();
    let t: i64 = crate::fixed::fx_mul(HALF_FX, fx_add(unit.y, SCALE));
    let white: Vec3 = crate::vec3::vec3(SCALE, SCALE, SCALE);
    let blue: Vec3 = crate::vec3::vec3(HALF_FX, 45875, SCALE);
    white.scale(crate::fixed::fx_sub(SCALE, t)).add(blue.scale(t))
}

/// What holds of every outcome of the radiance estimator for a ray at a
/// given depth: black once the bounce budget is spent; exactly the sky
/// gradient on a miss; on a hit, the material's attenuation componentwise
/// times a deeper estimate for a ray leaving the hit point — or plain
/// black, which only a metal surface can produce directly (absorption);
/// diffuse and dielectric surfaces always scatter.
pub open spec fn estimate_rel(objects: Seq<Sphere>, ray: Ray, depth: int, c: V3) -> bool
    decreases depth + 1,
{
    if depth < 0 {
        c == v3_zero()
    } else {
        match world_hit_s(objects, ray, SHADOW_ACNE_T as int, MAX_TRACE_T as int) {
            Option::None => c == sky_color_s(ray),
            Option::Some(h) => (depth == 0 ==> c == v3_zero()) && ((c == v3_zero()
                && h.material matches Material::Metal(_)) || (
            exists|att: V3, sray: Ray, bounce: V3|
                c == v3_cmul_s(att, bounce) && scatter_attenuation_s(h.material, att)
                    && sray.origin@ == h.pos && estimate_rel(objects, sray, depth - 1, bounce))),
        }
    }
}

/// The depth-bounded radiance estimate for a ray: black once the bounce
/// budget is spent; the material-attenuated recursive estimate on a hit
/// (black when the material absorbs the ray); the sky gradient on a miss.
pub fn ray_color(ray: &Ray, world: &World, depth: i32, rng: &mut rand::rngs::StdRng) -> (c: Vec3)
    ensures
        estimate_rel(world.objects@, *ray, depth as int, c@),
        depth < 0 ==> c@ == v3_zero(),
        depth >= 0 && world_hit_s(
            world.objects@,
            *ray,
            SHADOW_ACNE_T as int,
            MAX_TRACE_T as int,
        ).is_none() ==> c@ == sky_color_s(*ray),
    decreases depth + 1,
{
    if depth < 0 {
        return Vec3::zero();
    }

    match world.hit(ray, SHADOW_ACNE_T, MAX_TRACE_T) {
        Option::Some(rec) => {
            match rec.material.scatter(ray, &rec, rng) {
                Option::Some((attenuation, scattered_ray)) => {
                    let bounced: Vec3 = ray_color(&scattered_ray, world, depth - 1, rng);
                    let c: Vec3 = attenuation.cmul(bounced);
                    proof {
                        if depth == 0 {
                            lemma_fx_mul_zero(attenuation@.x);
                            lemma_fx_mul_zero(attenuation@.y);
                            lemma_fx_mul_zero(attenuation@.z);
                        }
                        assert(c@ == v3_cmul_s(attenuation@, bounced@) && scatter_attenuation_s(
                            rec@.material,
                            attenuation@,
                        ) && scattered_ray.origin@ == rec@.pos && estimate_rel(
                            world.objects@,
                            scattered_ray,
                            depth as int - 1,
                            bounced@,
                        ));
                        assert(exists|att: V3, sray: Ray, bounce: V3|
                            c@ == v3_cmul_s(att, bounce) && scatter_attenuation_s(
                                rec@.material,
                                att,
                            ) && sray.origin@ == rec@.pos && estimate_rel(
                                world.objects@,
                                sray,
                                depth as int - 1,
                                bounce,
                            ));
                    }
                    c
                },
                Option::None => {
                    proof {
                        assert(rec.material matches Material::Metal(_));
                    }
                    Vec3::zero()
                },
            }
        },
        Option::None => sky_color(ray),
    }
}

/// One emitted pixel: three channels in `[0, 255]`.
#[derive(Clone, Copy, PartialEq, Eq, Structural, Debug)]
pub struct Rgb {
    pub r: u32,
    pub g: u32,
    pub b: u32,
}

/// The sum of a sequence of sample colors, accumulated left to right as
/// the sampling loop does.
pub open spec fn v3_sum_s(samples: Seq<V3>) -> V3
    decreases samples.len(),
{
    if samples.len() == 0 {
        v3_zero()
    } else {
        v3_add_s(v3_sum_s(samples.drop_last()), samples.last())
    }
}

/// The normalized image coordinate of pixel index `k` jittered by `j`,
/// over an image extent of `extent` pixels: `(k + j) / (extent - 1)`.
pub open spec fn jitter_coord_s(k: int, j: int, extent: int) -> int {
    fx_div_s(fx_add_s(k * (SCALE as int), j), (extent - 1) * (SCALE as int))
}

/// `c` is a radiance sample for pixel `(x, y)`: for some jitter pair and
/// some lens-disc point, the camera ray of the jittered coordinates
/// carries estimate `c` under the integrator's contract.
pub open spec fn pixel_sample_s(
    cam: Camera,
    objects: Seq<Sphere>,
    width: int,
    height: int,
    x: int,
    y: int,
    max_depth: int,
    c: V3,
) -> bool {
    exists|ray: Ray, jx: int, jy: int, p: V3|
        0 <= jx && jx < SCALE as int && 0 <= jy && jy < SCALE as int && in_unit_disc_s(p)
            && #[trigger] camera_ray_s(
            cam,
            jitter_coord_s(x, jx, width),
            jitter_coord_s(y, jy, height),
            p,
            ray,
        ) && estimate_rel(objects, ray, max_depth, c)
}

/// The postprocessed color of a pixel whose samples sum to `sum`: average
/// over the sample count, gamma-correct by a componentwise square root,
/// clamp to just below one.
pub open spec fn pixel_color_s(sum: V3, spp_fx: int) -> V3 {
    v3_clamp_s(v3_sqrt_s(v3_div_fx_s(sum, spp_fx)), 0, 65470)
}

/// The pixel at buffer index `k` is the postprocessed average of
/// `spp` radiance samples for its own image coordinates (row-major,
/// topmost world-space row first), each channel scaled to 8 bits by
/// dividing out the remaining fraction bits.
pub open spec fn pixel_ok_s(
    cam: Camera,
    objects: Seq<Sphere>,
    width: int,
    height: int,
    spp: int,
    max_depth: int,
    k: int,
    px: Rgb,
) -> bool {
    exists|samples: Seq<V3>|
        #![trigger v3_sum_s(samples)]
        samples.len() == spp && (forall|n: int|
            0 <= n && n < samples.len() ==> pixel_sample_s(
                cam,
                objects,
                width,
                height,
                k % width,
                height - 1 - k / width,
                max_depth,
                #[trigger] samples[n],
            )) && px.r as int == pixel_color_s(v3_sum_s(samples), spp * (SCALE as int)).x / 256
            && px.g as int == pixel_color_s(v3_sum_s(samples), spp * (SCALE as int)).y / 256
            && px.b as int == pixel_color_s(v3_sum_s(samples), spp * (SCALE as int)).z / 256
}

/// Render the scene into a row-major pixel buffer, topmost world-space row
/// first. Every pixel averages `samples_per_pixel` jittered estimates,
/// gamma-corrects by a componentwise square root, clamps to just below
/// one, and scales each channel to an 8-bit value.
pub fn render(
    camera: &Camera,
    world: &World,
    width: u32,
    height: u32,
    samples_per_pixel: u32,
    max_depth: i32,
    rng: &mut rand::rngs::StdRng,
) -> (pixels: Vec<Rgb>)
    requires
        width >= 2,
        height >= 2,
        samples_per_pixel >= 1,
        width as int * height as int <= usize::MAX as int,
    ensures
        pixels@.len() == width as int * height as int,
        forall|k: int|
            0 <= k < pixels@.len() ==> (#[trigger] pixels@[k]).r <= 255 && pixels@[k].g <= 255
                && pixels@[k].b <= 255,
        forall|k: int|
            0 <= k < pixels@.len() ==> #[trigger] pixel_ok_s(
                *camera,
                world.objects@,
                width as int,
                height as int,
                samples_per_pixel as int,
                max_depth as int,
                k,
                pixels@[k],
            ),
{
    let mut pixels: Vec<Rgb> = Vec::new();
    let mut y: u32 = height;
    while y > 0
        invariant
            y <= height,
            width >= 2,
            height >= 2,
            samples_per_pixel >= 1,
            width as int * height as int <= usize::MAX as int,
            pixels@.len() == (height - y) as int * width as int,
            forall|k: int|
                0 <= k < pixels@.len() ==> (#[trigger] pixels@[k]).r <= 255 && pixels@[k].g
                    <= 255 && pixels@[k].b <= 255,
            forall|k: int|
                0 <= k < pixels@.len() ==> #[trigger] pixel_ok_s(
                    *camera,
                    world.objects@,
                    width as int,
                    height as int,
                    samples_per_pixel as int,
                    max_depth as int,
                    k,
                    pixels@[k],
                ),
        decreases y,
    {
        y = y - 1;
        let mut x: u32 = 0;
        proof {
            lemma_mul_is_distributive_add_other_way(
                width as int,
                (height - y - 1) as int,
                1,
            );
            assert((height - y - 1) as int * width as int + width as int == (height - y) as int
                * width as int);
            lemma_render_rows_bound(height as int, width as int, y as int);
        }
        while x < width
            invariant
                x <= width,
                y < height,
                width >= 2,
                height >= 2,
                samples_per_pixel >= 1,
                pixels@.len() == (height - y - 1) as int * width as int + x as int,
                (height - y - 1) as int * width as int + width as int == (height - y) as int
                    * width as int,
                (height - y) as int * width as int <= usize::MAX as int,
                forall|k: int|
                    0 <= k < pixels@.len() ==> (#[trigger] pixels@[k]).r <= 255 && pixels@[k].g
                        <= 255 && pixels@[k].b <= 255,
                forall|k: int|
                    0 <= k < pixels@.len() ==> #[trigger] pixel_ok_s(
                        *camera,
                        world.objects@,
                        width as int,
                        height as int,
                        samples_per_pixel as int,
                        max_depth as int,
                        k,
                        pixels@[k],
                    ),
            decreases width - x,
        {
            let mut color: Vec3 = Vec3::zero();
            let ghost mut samples: Seq<V3> = Seq::<V3>::empty();
            let mut sample: u32 = 0;
            while sample < samples_per_pixel
                invariant
                    sample <= samples_per_pixel,
                    width >= 2,
                    height >= 2,
                    x < width,
                    y < height,
                    samples.len() == sample as int,
                    color@ == v3_sum_s(samples),
                    forall|n: int|
                        0 <= n && n < samples.len() ==> pixel_sample_s(
                            *camera,
                            world.objects@,
                            width as int,
                            height as int,
                            x as int,
                            y as int,
                            max_depth as int,
                            #[trigger] samples[n],
                        ),
                decreases samples_per_pixel - sample,
            {
                let jx: i64 = random_fx(rng, 0, SCALE);
                let jy: i64 = random_fx(rng, 0, SCALE);
                let u: i64 = fx_div(fx_add(fx_of_u32(x), jx), fx_of_u32(width - 1));
                let v: i64 = fx_div(fx_add(fx_of_u32(y), jy), fx_of_u32(height - 1));
                let ray: Ray = camera.get_ray(u, v, rng);
                let c: Vec3 = ray_color(&ray, world, max_depth, rng);
                proof {
                    let pw = choose|p: V3|
                        in_unit_disc_s(p) && #[trigger] camera_ray_s(
                            *camera,
                            u as int,
                            v as int,
                            p,
                            ray,
                        );
                    assert(u as int == jitter_coord_s(x as int, jx as int, width as int));
                    assert(v as int == jitter_coord_s(y as int, jy as int, height as int));
                    assert(0 <= jx as int && (jx as int) < SCALE as int && 0 <= jy as int && (
                    jy as int) < SCALE as int && in_unit_disc_s(pw) && camera_ray_s(
                        *camera,
                        jitter_coord_s(x as int, jx as int, width as int),
                        jitter_coord_s(y as int, jy as int, height as int),
                        pw,
                        ray,
                    ) && estimate_rel(world.objects@, ray, max_depth as int, c@));
                    assert(pixel_sample_s(
                        *camera,
                        world.objects@,
                        width as int,
                        height as int,
                        x as int,
                        y as int,
                        max_depth as int,
                        c@,
                    ));
                    let s2 = samples.push(c@);
                    assert(s2.drop_last() =~= samples);
                    assert(s2.last() == c@);
                    assert(v3_sum_s(s2) == v3_add_s(v3_sum_s(samples), c@));
                    samples = s2;
                }
                color = color.add(c);
                sample = sample + 1;
            }

            color = color.div_fx(fx_of_u32(samples_per_pixel));
            color = color.sqrt();
            color = color.clamp(0, 65470);
            proof {
                assert(color@ == pixel_color_s(
                    v3_sum_s(samples),
                    samples_per_pixel as int * (SCALE as int),
                ));
            }

            let red: u32 = ((color.x as u64) / 256) as u32;
            let green: u32 = ((color.y as u64) / 256) as u32;
            let blue: u32 = ((color.z as u64) / 256) as u32;
            let px: Rgb = Rgb { r: red, g: green, b: blue };

            proof {
                let k0 = pixels@.len() as int;
                lemma_fundamental_div_mod_converse(
                    k0,
                    width as int,
                    (height - y - 1) as int,
                    x as int,
                );
                assert(k0 % (width as int) == x as int && height as int - 1 - k0 / (
                width as int) == y as int);
                assert(pixel_ok_s(
                    *camera,
                    world.objects@,
                    width as int,
                    height as int,
                    samples_per_pixel as int,
                    max_depth as int,
                    k0,
                    px,
                ));
            }
            pixels.push(px);
            x = x + 1;
        }
    }
    proof {
        lemma_mul_is_commutative(width as int, height as int);
    }
    pixels
}

/// Rows already rendered never exceed the whole image.
proof fn lemma_render_rows_bound(height: int, width: int, y: int) by (nonlinear_arith)
    requires
        0 <= y < height,
        width >= 0,
    ensures
        (height - y) * width <= width * height,
{
}

} // verus!
