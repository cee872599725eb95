//! Scattering models: diffuse, metallic and dielectric materials.

use vstd::prelude::*;
use crate::fixed::FX_MAX;
use crate::fixed::SCALE;
use crate::fixed::absi;
use crate::fixed::lemma_fx_div_unit;
use crate::fixed::lemma_fx_mul_unit_le;
use crate::fixed::lemma_fx_square_le_one;
use crate::fixed::fx_add;
use crate::fixed::fx_add_s;
use crate::fixed::fx_div;
use crate::fixed::fx_div_s;
use crate::fixed::fx_min;
use crate::fixed::fx_min_s;
use crate::fixed::fx_mul;
use crate::fixed::fx_mul_s;
use crate::fixed::fx_sqrt;
use crate::fixed::fx_sqrt_s;
use crate::fixed::fx_sub;
use crate::fixed::fx_sub_s;
use crate::hittable::HitRecord;
use crate::ray::Ray;
use crate::rng::random_point_in_unit_sphere;
use crate::vec3::V3;
use crate::vec3::Vec3;
use crate::vec3::v3_add_s;
use crate::vec3::v3_dot_s;
use crate::vec3::v3_len_s;
use crate::vec3::v3_neg_s;
use crate::vec3::v3_norm_s;
use crate::vec3::v3_reflect_s;
use crate::vec3::v3_refract_s;
use crate::vec3::v3_scale_s;
use crate::vec3::vec3;

verus! {

/// A scatter direction whose length falls below this raw threshold counts
/// as degenerate (an all-cancelling sample) and is replaced by the normal.
pub const DEGENERATE_LEN: i64 = 1;

/// The attenuation of a clear dielectric: full transmission on every
/// channel.
pub open spec fn v3_ones() -> V3 {
    V3 { x: SCALE as int, y: SCALE as int, z: SCALE as int }
}

/// The direction a diffuse surface scatters to, given the unit-sphere
/// sample `p`: the normal plus `p`, or the normal alone when that sum is
/// degenerate.
pub open spec fn lambertian_dir_s(normal: V3, p: V3) -> V3 {
    let d = v3_add_s(normal, p);
    if v3_len_s(d) < DEGENERATE_LEN as int {
        normal
    } else {
        d
    }
}

/// A diffuse surface with a base color.
#[derive(Clone, Copy)]
pub struct Lambertian {
    pub albedo: Vec3,
}

impl Lambertian {
    /// A diffuse material with the given base color.
    pub fn new(albedo: Vec3) -> (m: Lambertian)
        ensures
            m.albedo == albedo,
    {
        Lambertian { albedo }
    }

    /// Always scatters: the attenuation is the albedo and the new ray
    /// leaves the hit point along the sampled diffuse direction.
    pub fn scatter(&self, rec: &HitRecord, rng: &mut rand::rngs::StdRng) -> (r: Option<
        (Vec3, Ray),
    >)
        ensures
            r.is_some(),
            r.unwrap().0 == self.albedo,
            r.unwrap().1.origin == rec.pos,
            exists|p: V3|
                v3_len_s(p) < SCALE as int && r.unwrap().1.dir@ == lambertian_dir_s(
                    rec.normal@,
                    p,
                ),
    {
        let p: Vec3 = random_point_in_unit_sphere(rng);
        let mut scatter_direction: Vec3 = rec.normal.add(p);

        if scatter_direction.length() < DEGENERATE_LEN {
            scatter_direction = rec.normal;
        }

        let out: Ray = Ray { origin: rec.pos, dir: scatter_direction };
        proof {
            assert(v3_len_s(p@) < SCALE as int && out.dir@ == lambertian_dir_s(
                rec.normal@,
                p@,
            ));
        }
        Option::Some((self.albedo, out))
    }
}

/// A metallic surface with a base color and a roughness in `[0, 1]`.
#[derive(Clone, Copy)]
pub struct Metal {
    pub albedo: Vec3,
    pub fuzz: i64,
}

impl Metal {
    /// A metallic material with the given base color and roughness.
    pub fn new(albedo: Vec3, fuzz: i64) -> (m: Metal)
        ensures
            m.albedo == albedo,
            m.fuzz == fuzz,
    {
        Metal { albedo, fuzz }
    }

    /// Reflects the incoming direction about the normal and perturbs it by
    /// `fuzz` times a unit-sphere sample. The ray is absorbed — nothing is
    /// returned — unless the perturbed direction still points away from
    /// the surface.
    pub fn scatter(&self, input_ray: &Ray, rec: &HitRecord, rng: &mut rand::rngs::StdRng) -> (r:
        Option<(Vec3, Ray)>)
        ensures
            r.is_some() ==> r.unwrap().0 == self.albedo,
            r.is_some() ==> r.unwrap().1.origin == rec.pos,
            r.is_some() ==> v3_dot_s(r.unwrap().1.dir@, rec.normal@) > 0,
            exists|p: V3|
                v3_len_s(p) < SCALE as int && {
                    let d = v3_add_s(
                        v3_reflect_s(v3_norm_s(input_ray.dir@), rec.normal@),
                        v3_scale_s(p, self.fuzz as int),
                    );
                    (r.is_some() <==> v3_dot_s(d, rec.normal@) > 0) && (r.is_some()
                        ==> r.unwrap().1.dir@ == d)
                },
    {
        let reflected: Vec3 = input_ray.dir.normalize().reflect(rec.normal);
        let p: Vec3 = random_point_in_unit_sphere(rng);
        let dir: Vec3 = reflected.add(p.scale(self.fuzz));
        let accepted: bool = dir.dot(rec.normal) > 0;
        proof {
            let d = v3_add_s(
                v3_reflect_s(v3_norm_s(input_ray.dir@), rec.normal@),
                v3_scale_s(p@, self.fuzz as int),
            );
            assert(dir@ == d);
        }
        if accepted {
            Option::Some((self.albedo, Ray { origin: rec.pos, dir }))
        } else {
            Option::None
        }
    }
}

/// Schlick's approximation of Fresnel reflectance:
/// `r0^2 + (1 - r0^2) (1 - cosine)^5` with `r0 = (1 - n) / (1 + n)`.
pub open spec fn schlick_s(cosine: int, ref_idx: int) -> int {
    let r0 = fx_div_s(fx_sub_s(SCALE as int, ref_idx), fx_add_s(SCALE as int, ref_idx));
    let r0sq = fx_mul_s(r0, r0);
    let omc = fx_sub_s(SCALE as int, cosine);
    let p2 = fx_mul_s(omc, omc);
    let p5 = fx_mul_s(fx_mul_s(p2, p2), omc);
    fx_add_s(r0sq, fx_mul_s(fx_sub_s(SCALE as int, r0sq), p5))
}

/// At a head-on view (`cosine` equal to one) Schlick's formula collapses
/// exactly to `r0^2`: the fifth power factor vanishes.
pub proof fn lemma_reflectance_at_full_cosine(ref_idx: int)
    ensures
        schlick_s(SCALE as int, ref_idx) == ({
            let r0 = fx_div_s(
                fx_sub_s(SCALE as int, ref_idx),
                fx_add_s(SCALE as int, ref_idx),
            );
            fx_mul_s(r0, r0)
        }),
{
    let r0 = fx_div_s(fx_sub_s(SCALE as int, ref_idx), fx_add_s(SCALE as int, ref_idx));
    let r0sq = fx_mul_s(r0, r0);
    assert(fx_sub_s(SCALE as int, SCALE as int) == 0);
    assert(fx_mul_s(0, 0) == 0);
    assert(fx_mul_s(fx_sub_s(SCALE as int, r0sq), 0) == 0);
    assert(fx_add_s(r0sq, 0) == r0sq);
}

/// Schlick's reflectance lies in `[0, 1]` for any viewing angle and any
/// positive refractive index.
pub proof fn lemma_reflectance_in_unit_range(cosine: int, ref_idx: int)
    requires
        0 <= cosine <= SCALE as int,
        0 < ref_idx <= FX_MAX as int,
    ensures
        0 <= schlick_s(cosine, ref_idx) <= SCALE as int,
{
    let num = fx_sub_s(SCALE as int, ref_idx);
    let den = fx_add_s(SCALE as int, ref_idx);
    assert(den > 0);
    assert(absi(num) <= den);
    lemma_fx_div_unit(num, den);
    let r0 = fx_div_s(num, den);
    lemma_fx_square_le_one(r0);
    let r0sq = fx_mul_s(r0, r0);
    let omc = fx_sub_s(SCALE as int, cosine);
    lemma_fx_mul_unit_le(omc, omc);
    let p2 = fx_mul_s(omc, omc);
    lemma_fx_mul_unit_le(p2, p2);
    let p4 = fx_mul_s(p2, p2);
    lemma_fx_mul_unit_le(p4, omc);
    let p5 = fx_mul_s(p4, omc);
    let onem = fx_sub_s(SCALE as int, r0sq);
    lemma_fx_mul_unit_le(onem, p5);
}

/// The attenuation each material hands back when it scatters: the albedo
/// for diffuse and metallic surfaces, full transmission for a dielectric.
pub open spec fn scatter_attenuation_s(m: Material, att: V3) -> bool {
    match m {
        Material::Lambertian(l) => att == l.albedo@,
        Material::Metal(mt) => att == mt.albedo@,
        Material::Dielectric(_) => att == v3_ones(),
    }
}

/// The direction a dielectric picks for the incoming unit direction
/// `unit`, surface normal `n`, index ratio `ratio` and uniform draw `u`:
/// reflect under total internal reflection or when the Schlick reflectance
/// exceeds the draw, otherwise refract by Snell's law.
pub open spec fn dielectric_dir_s(unit: V3, n: V3, ratio: int, u: int) -> V3 {
    let cos = fx_min_s(v3_dot_s(v3_neg_s(unit), n), SCALE as int);
    let sin = fx_sqrt_s(fx_sub_s(SCALE as int, fx_mul_s(cos, cos)));
    if fx_mul_s(ratio, sin) > SCALE as int || schlick_s(cos, ratio) > u {
        v3_reflect_s(unit, n)
    } else {
        v3_refract_s(unit, n, ratio)
    }
}

/// The index ratio a dielectric refracts with: inverted when the ray
/// enters through the front face.
pub open spec fn dielectric_ratio_s(ir: int, front_face: bool) -> int {
    if front_face {
        fx_div_s(SCALE as int, ir)
    } else {
        ir
    }
}

/// The cosine between the reversed incoming unit direction and the normal,
/// capped at one.
pub open spec fn dielectric_cos_s(in_dir: V3, n: V3) -> int {
    fx_min_s(v3_dot_s(v3_neg_s(v3_norm_s(in_dir)), n), SCALE as int)
}

/// The matching sine.
pub open spec fn dielectric_sin_s(in_dir: V3, n: V3) -> int {
    fx_sqrt_s(
        fx_sub_s(
            SCALE as int,
            fx_mul_s(dielectric_cos_s(in_dir, n), dielectric_cos_s(in_dir, n)),
        ),
    )
}

/// Snell's law has no solution: the ray cannot refract and must reflect.
pub open spec fn cannot_refract_s(ir: int, front_face: bool, in_dir: V3, n: V3) -> bool {
    fx_mul_s(dielectric_ratio_s(ir, front_face), dielectric_sin_s(in_dir, n)) > SCALE as int
}

/// The direction a dielectric picks for the uniform draw `u`.
pub open spec fn dielectric_pick_s(ir: int, front_face: bool, in_dir: V3, n: V3, u: int) -> V3 {
    dielectric_dir_s(v3_norm_s(in_dir), n, dielectric_ratio_s(ir, front_face), u)
}

/// Everything a dielectric scatter promises of its outgoing direction:
/// reflection is forced under total internal reflection, and in general
/// the direction is the reflect-or-refract choice for some uniform draw.
pub open spec fn dielectric_scatter_ok_s(
    ir: int,
    front_face: bool,
    in_dir: V3,
    n: V3,
    out_dir: V3,
) -> bool {
    &&& (cannot_refract_s(ir, front_face, in_dir, n) ==> out_dir == v3_reflect_s(
        v3_norm_s(in_dir),
        n,
    ))
    &&& exists|u: int|
        0 <= u && u < SCALE as int && out_dir == #[trigger] dielectric_pick_s(
            ir,
            front_face,
            in_dir,
            n,
            u,
        )
}

/// A clear refractive material with index of refraction `ir`.
#[derive(Clone, Copy)]
pub struct Dielectric {
    pub ir: i64,
}

impl Dielectric {
    /// A dielectric material with the given refractive index.
    pub fn new(ir: i64) -> (m: Dielectric)
        ensures
            m.ir == ir,
    {
        Dielectric { ir }
    }

    /// Schlick's reflectance approximation.
    pub fn calc_reflectance(&self, cosine: i64, ref_idx: i64) -> (r: i64)
        ensures
            r as int == schlick_s(cosine as int, ref_idx as int),
    {
        let r0: i64 = fx_div(fx_sub(SCALE, ref_idx), fx_add(SCALE, ref_idx));
        let r0sq: i64 = fx_mul(r0, r0);
        let omc: i64 = fx_sub(SCALE, cosine);
        let p2: i64 = fx_mul(omc, omc);
        let p5: i64 = fx_mul(fx_mul(p2, p2), omc);
        fx_add(r0sq, fx_mul(fx_sub(SCALE, r0sq), p5))
    }

    /// Always scatters with no absorption. Refraction is impossible when
    /// Snell's law has no solution (total internal reflection); otherwise
    /// the choice between reflecting and refracting is made by comparing
    /// the Schlick reflectance against a uniform draw.
    pub fn scatter(&self, input_ray: &Ray, rec: &HitRecord, rng: &mut rand::rngs::StdRng) -> (r:
        Option<(Vec3, Ray)>)
        ensures
            r.is_some(),
            r.unwrap().0@ == v3_ones(),
            r.unwrap().1.origin == rec.pos,
            dielectric_scatter_ok_s(
                self.ir as int,
                rec.front_face,
                input_ray.dir@,
                rec.normal@,
                r.unwrap().1.dir@,
            ),
    {
        let attenuation: Vec3 = vec3(SCALE, SCALE, SCALE);

        let refraction_ratio: i64 = if rec.front_face {
            fx_div(SCALE, self.ir)
        } else {
            self.ir
        };

        let normalized_direction: Vec3 = input_ray.dir.normalize();
        let cos_theta: i64 = fx_min(normalized_direction.neg().dot(rec.normal), SCALE);
        let sin_theta: i64 = fx_sqrt(fx_sub(SCALE, fx_mul(cos_theta, cos_theta)));

        let cannot_refract: bool = fx_mul(refraction_ratio, sin_theta) > SCALE;
        let draw: i64 = crate::rng::random_fx(rng, 0, SCALE);

        let direction: Vec3 = if cannot_refract || self.calc_reflectance(
            cos_theta,
            refraction_ratio,
        ) > draw {
            normalized_direction.reflect(rec.normal)
        } else {
            normalized_direction.refract(rec.normal, refraction_ratio)
        };

        proof {
            assert(direction@ == dielectric_pick_s(
                self.ir as int,
                rec.front_face,
                input_ray.dir@,
                rec.normal@,
                draw as int,
            ));
            assert(exists|u: int|
                0 <= u && u < SCALE as int && direction@ == #[trigger] dielectric_pick_s(
                    self.ir as int,
                    rec.front_face,
                    input_ray.dir@,
                    rec.normal@,
                    u,
                ));
        }
        Option::Some((attenuation, Ray { origin: rec.pos, dir: direction }))
    }
}

/// The closed set of materials, dispatched by variant.
#[derive(Clone, Copy)]
pub enum Material {
    Lambertian(Lambertian),
    Metal(Metal),
    Dielectric(Dielectric),
}

impl Material {
    /// Dispatch to the variant's scattering model. A diffuse or dielectric
    /// surface always scatters; a metallic one absorbs the ray whenever
    /// the perturbed reflection no longer leaves the surface.
    pub fn scatter(&self, input_ray: &Ray, rec: &HitRecord, rng: &mut rand::rngs::StdRng) -> (r:
        Option<(Vec3, Ray)>)
        ensures
            match *self {
                Material::Lambertian(m) => r.is_some() && r.unwrap().0 == m.albedo
                    && r.unwrap().1.origin == rec.pos,
                Material::Metal(m) => (r.is_some() ==> r.unwrap().0 == m.albedo
                    && r.unwrap().1.origin == rec.pos && v3_dot_s(
                    r.unwrap().1.dir@,
                    rec.normal@,
                ) > 0),
                Material::Dielectric(_) => r.is_some() && r.unwrap().0@ == v3_ones()
                    && r.unwrap().1.origin == rec.pos,
            },
    {
        match self {
            Material::Lambertian(m) => m.scatter(rec, rng),
            Material::Metal(m) => m.scatter(input_ray, rec, rng),
            Material::Dielectric(m) => m.scatter(input_ray, rec, rng),
        }
    }
}

} // verus!
