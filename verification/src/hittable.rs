//! Ray–sphere intersection and the linear scene traversal.

use vstd::prelude::*;
use vstd::arithmetic::div_mod::lemma_div_by_multiple;
use crate::fixed::SCALE;
use crate::fixed::absi;
use crate::fixed::fx_add;
use crate::fixed::is_isqrt;
use crate::fixed::isqrt_s;
use crate::fixed::lemma_fx_div_zero_num;
use crate::fixed::lemma_fx_mul_units;
use crate::fixed::lemma_fx_mul_zero;
use crate::fixed::lemma_isqrt_exists;
use crate::fixed::lemma_isqrt_unique;
use crate::fixed::lemma_tdiv_exact;
use crate::fixed::fx_add_s;
use crate::fixed::fx_div;
use crate::fixed::fx_div_s;
use crate::fixed::fx_mul;
use crate::fixed::fx_mul_s;
use crate::fixed::fx_neg;
use crate::fixed::fx_neg_s;
use crate::fixed::fx_sqrt;
use crate::fixed::fx_sqrt_s;
use crate::fixed::fx_sub;
use crate::fixed::fx_sub_s;
use crate::material::Material;
use crate::ray::Ray;
use crate::ray::ray_at_s;
use crate::vec3::V3;
use crate::vec3::Vec3;
use crate::vec3::lemma_v3_dot_neg;
use crate::vec3::v3_div_fx_s;
use crate::vec3::v3_dot_s;
use crate::vec3::v3_lsq_s;
use crate::vec3::v3_neg_s;
use crate::vec3::v3_sub_s;

verus! {

/// A successful intersection: the hit point, the unit-scale normal facing
/// against the incoming ray, the ray parameter, which side was struck, and
/// the struck object's material.
#[derive(Clone, Copy)]
pub struct HitRecord {
    pub pos: Vec3,
    pub normal: Vec3,
    pub t: i64,
    pub front_face: bool,
    pub material: Material,
}

/// Mathematical image of a hit record.
pub ghost struct HitS {
    pub pos: V3,
    pub normal: V3,
    pub t: int,
    pub front_face: bool,
    pub material: Material,
}

impl View for HitRecord {
    type V = HitS;

    open spec fn view(&self) -> HitS {
        HitS {
            pos: self.pos@,
            normal: self.normal@,
            t: self.t as int,
            front_face: self.front_face,
            material: self.material,
        }
    }
}

/// The view of an optional hit record.
pub open spec fn opt_hit_view(o: Option<HitRecord>) -> Option<HitS> {
    match o {
        Option::None => Option::<HitS>::None,
        Option::Some(h) => Option::Some(h@),
    }
}

impl HitRecord {
    /// Store `outward_normal` oriented against the ray: the front face was
    /// struck exactly when the ray runs against the outward normal.
    pub fn set_face_normal(&mut self, ray: &Ray, outward_normal: Vec3)
        ensures
            final(self).front_face == (v3_dot_s(ray.dir@, outward_normal@) < 0),
            final(self).normal@ == if v3_dot_s(ray.dir@, outward_normal@) < 0 {
                outward_normal@
            } else {
                v3_neg_s(outward_normal@)
            },
            final(self).pos == old(self).pos,
            final(self).t == old(self).t,
            final(self).material == old(self).material,
    {
        self.front_face = ray.dir.dot(outward_normal) < 0;
        self.normal = if self.front_face {
            outward_normal
        } else {
            outward_normal.neg()
        };
    }
}

/// A sphere with a strictly positive radius and a material.
#[derive(Clone, Copy)]
pub struct Sphere {
    pub center: Vec3,
    pub radius: i64,
    pub material: Material,
}

/// The record a sphere produces for an accepted root.
pub open spec fn sphere_record_s(s: Sphere, r: Ray, root: int) -> HitS {
    let pos = ray_at_s(r, root);
    let outward = v3_div_fx_s(v3_sub_s(pos, s.center@), s.radius as int);
    let ff = v3_dot_s(r.dir@, outward) < 0;
    HitS {
        pos,
        normal: if ff {
            outward
        } else {
            v3_neg_s(outward)
        },
        t: root,
        front_face: ff,
        material: s.material,
    }
}

/// Ray–sphere intersection: solve `a t^2 + 2 half_b t + c = 0`; a negative
/// discriminant (or a degenerate zero-length direction) is a miss, else the
/// smaller root is preferred and the larger tried only when the smaller
/// falls outside `[t_min, t_max]`.
pub open spec fn sphere_hit_s(s: Sphere, r: Ray, t_min: int, t_max: int) -> Option<HitS> {
    let oc = v3_sub_s(r.origin@, s.center@);
    let a = v3_lsq_s(r.dir@);
    let half_b = v3_dot_s(oc, r.dir@);
    let c = fx_sub_s(v3_lsq_s(oc), fx_mul_s(s.radius as int, s.radius as int));
    let disc = fx_sub_s(fx_mul_s(half_b, half_b), fx_mul_s(a, c));
    if a == 0 || disc < 0 {
        Option::<HitS>::None
    } else {
        let sqrtd = fx_sqrt_s(disc);
        let root1 = fx_div_s(fx_sub_s(fx_neg_s(half_b), sqrtd), a);
        let root2 = fx_div_s(fx_add_s(fx_neg_s(half_b), sqrtd), a);
        if t_min <= root1 && root1 <= t_max {
            Option::Some(sphere_record_s(s, r, root1))
        } else if t_min <= root2 && root2 <= t_max {
            Option::Some(sphere_record_s(s, r, root2))
        } else {
            Option::<HitS>::None
        }
    }
}

impl Sphere {
    /// The nearest intersection with parameter in `[t_min, t_max]`, if any.
    /// A returned normal always satisfies the front-face convention:
    /// the ray direction never points along it.
    pub fn hit(&self, ray: &Ray, t_min: i64, t_max: i64) -> (r: Option<HitRecord>)
        ensures
            opt_hit_view(r) == sphere_hit_s(*self, *ray, t_min as int, t_max as int),
            r.is_some() ==> t_min <= r.unwrap().t <= t_max,
            r.is_some() ==> v3_dot_s(ray.dir@, r.unwrap().normal@) <= 0,
            r.is_some() ==> r.unwrap()@ == sphere_record_s(*self, *ray, r.unwrap().t as int),
    {
        let oc: Vec3 = ray.origin.sub(self.center);
        let a: i64 = ray.dir.length_squared();
        let half_b: i64 = oc.dot(ray.dir);
        let c: i64 = fx_sub(oc.length_squared(), fx_mul(self.radius, self.radius));
        let disc: i64 = fx_sub(fx_mul(half_b, half_b), fx_mul(a, c));

        if a == 0 || disc < 0 {
            return Option::None;
        }

        let sqrtd: i64 = fx_sqrt(disc);
        let mut root: i64 = fx_div(fx_sub(fx_neg(half_b), sqrtd), a);
        if root < t_min || t_max < root {
            root = fx_div(fx_add(fx_neg(half_b), sqrtd), a);
            if root < t_min || t_max < root {
                return Option::None;
            }
        }

        let pos: Vec3 = ray.at(root);
        let outward_normal: Vec3 = pos.sub(self.center).div_fx(self.radius);
        let mut hit_record: HitRecord = HitRecord {
            t: root,
            pos,
            normal: Vec3::zero(),
            front_face: false,
            material: self.material,
        };
        hit_record.set_face_normal(ray, outward_normal);
        proof {
            lemma_v3_dot_neg(ray.dir@, outward_normal@);
        }
        Option::Some(hit_record)
    }
}

/// An ordered collection of spheres; the order matters only for breaking
/// exact intersection ties.
pub struct World {
    pub objects: Vec<Sphere>,
}

/// The scan over `objects[i..]` carrying the best hit so far and its
/// parameter as the shrinking upper bound. A later hit at exactly the
/// current bound is rejected: the first-listed object at a given parameter
/// wins.
pub open spec fn world_hit_from(
    objects: Seq<Sphere>,
    i: int,
    r: Ray,
    t_min: int,
    closest: int,
    best: Option<HitS>,
) -> Option<HitS>
    decreases objects.len() - i,
{
    if i < 0 || i >= objects.len() {
        best
    } else {
        match sphere_hit_s(objects[i], r, t_min, closest) {
            Option::None => world_hit_from(objects, i + 1, r, t_min, closest, best),
            Option::Some(h) => if best.is_some() && h.t == closest {
                world_hit_from(objects, i + 1, r, t_min, closest, best)
            } else {
                world_hit_from(objects, i + 1, r, t_min, h.t, Option::Some(h))
            },
        }
    }
}

/// The nearest intersection over the whole scene.
pub open spec fn world_hit_s(objects: Seq<Sphere>, r: Ray, t_min: int, t_max: int) -> Option<
    HitS,
> {
    world_hit_from(objects, 0, r, t_min, t_max, Option::<HitS>::None)
}

/// A sphere of radius `r` units centered `d` units down the axis of a
/// unit-direction ray is hit exactly at the analytic distance to the near
/// surface, `d - r` units: every intermediate of the quadratic is exact,
/// and the accepted root is the smaller one. The record carries the
/// outward axis normal, front face.
pub proof fn lemma_axial_hit_distance(
    s: Sphere,
    ray: Ray,
    d: int,
    r: int,
    t_min: int,
    t_max: int,
)
    requires
        0 < r < d <= 0x100000,
        s.center@ == (V3 { x: 0, y: 0, z: -d * (SCALE as int) }),
        s.radius as int == r * (SCALE as int),
        ray.origin@ == (V3 { x: 0, y: 0, z: 0 }),
        ray.dir@ == (V3 { x: 0, y: 0, z: -(SCALE as int) }),
        0 <= t_min <= (d - r) * (SCALE as int) <= t_max,
    ensures
        sphere_hit_s(s, ray, t_min, t_max).is_some(),
        sphere_hit_s(s, ray, t_min, t_max).unwrap().t == (d - r) * (SCALE as int),
        sphere_hit_s(s, ray, t_min, t_max).unwrap().front_face,
        sphere_hit_s(s, ray, t_min, t_max).unwrap().normal == (V3 {
            x: 0,
            y: 0,
            z: SCALE as int,
        }),
{
    let sc = SCALE as int;
    let dd = d * d;
    let rr = r * r;
    assert(0 < rr <= dd && dd <= 0x10000000000) by (nonlinear_arith)
        requires
            0 < r < d <= 0x100000,
            rr == r * r,
            dd == d * d,
    ;

    assert((-d) * (-d) == dd && d * -1 == -d && (-1) * (-1) == 1 && -1 * (d - r) == -(d - r)
        && -1 * 1 == -1 && 1 * (dd - rr) == dd - rr && 0 * 0 == 0) by (nonlinear_arith)
        requires
            dd == d * d,
    ;

    lemma_fx_mul_units(0, 0);
    lemma_fx_mul_units(-1, -1);
    lemma_fx_mul_units(d, -1);
    lemma_fx_mul_units(d, d);
    lemma_fx_mul_units(r, r);
    lemma_fx_mul_units(-d, -d);
    lemma_fx_mul_units(1, dd - rr);
    lemma_fx_mul_units(-1, d - r);
    lemma_fx_mul_units(-1, 1);

    let oc = v3_sub_s(ray.origin@, s.center@);
    assert(oc == (V3 { x: 0, y: 0, z: d * sc }));
    let a = v3_lsq_s(ray.dir@);
    assert(a == sc);
    let half_b = v3_dot_s(oc, ray.dir@);
    assert(half_b == -d * sc) by {
        assert(fx_mul_s(d * sc, -1 * sc) == d * -1 * sc);
    }
    assert(v3_lsq_s(oc) == dd * sc) by {
        assert(fx_mul_s(d * sc, d * sc) == dd * sc);
    }
    let c = fx_sub_s(v3_lsq_s(oc), fx_mul_s(s.radius as int, s.radius as int));
    assert(c == (dd - rr) * sc);
    let disc = fx_sub_s(fx_mul_s(half_b, half_b), fx_mul_s(a, c));
    assert(fx_mul_s(half_b, half_b) == dd * sc) by {
        assert(-d * sc == (-d) * sc);
        assert(fx_mul_s((-d) * sc, (-d) * sc) == (-d) * (-d) * sc);
        assert((-d) * (-d) == dd) by (nonlinear_arith)
            requires
                dd == d * d,
        ;
    }
    assert(fx_mul_s(a, c) == (dd - rr) * sc) by {
        assert(a == 1 * sc);
        assert(fx_mul_s(1 * sc, (dd - rr) * sc) == 1 * (dd - rr) * sc);
    }
    assert(disc == rr * sc);

    let sqrtd = fx_sqrt_s(disc);
    assert(sqrtd == r * sc) by {
        assert(disc > 0);
        assert(is_isqrt(rr * sc * sc, r * sc)) by (nonlinear_arith)
            requires
                0 < r,
                rr == r * r,
                sc == 65536,
        ;
        lemma_isqrt_exists(rr * sc * sc);
        lemma_isqrt_unique(rr * sc * sc, r * sc, isqrt_s(rr * sc * sc));
        assert(disc * sc == rr * sc * sc) by (nonlinear_arith)
            requires
                disc == rr * sc,
        ;
    }

    let root1 = fx_div_s(fx_sub_s(fx_neg_s(half_b), sqrtd), a);
    assert(fx_neg_s(half_b) == d * sc);
    assert(fx_sub_s(d * sc, r * sc) == (d - r) * sc);
    assert(root1 == (d - r) * sc) by {
        lemma_tdiv_exact((d - r) * sc);
        assert(((d - r) * sc) * sc == ((d - r) * sc) * (SCALE as int));
    }

    let rec = sphere_record_s(s, ray, root1);
    assert(rec.t == (d - r) * sc);
    let pos = ray_at_s(ray, root1);
    assert(pos == (V3 { x: 0, y: 0, z: -(d - r) * sc })) by {
        assert(fx_mul_s(0, root1) == 0) by {
            lemma_fx_mul_zero(root1);
        }
        assert(fx_mul_s(-1 * sc, (d - r) * sc) == -1 * (d - r) * sc);
        assert(-1 * (d - r) * sc == -(d - r) * sc) by (nonlinear_arith);
    }
    let outward = v3_div_fx_s(v3_sub_s(pos, s.center@), s.radius as int);
    assert(v3_sub_s(pos, s.center@) == (V3 { x: 0, y: 0, z: r * sc })) by {
        assert(-(d - r) * sc - (-d * sc) == r * sc) by (nonlinear_arith);
    }
    assert(outward == (V3 { x: 0, y: 0, z: sc })) by {
        assert(fx_div_s(0, r * sc) == 0) by {
            lemma_fx_div_zero_num(r * sc);
        }
        assert(fx_div_s(r * sc, r * sc) == sc) by {
            assert((r * sc) * sc == sc * (r * sc)) by (nonlinear_arith);
            lemma_div_by_multiple(sc, r * sc);
            assert(absi((r * sc) * sc) == (r * sc) * sc) by (nonlinear_arith)
                requires
                    r > 0,
                    sc == 65536,
            ;
        }
    }
    assert(v3_dot_s(ray.dir@, outward) == -1 * sc) by {
        lemma_fx_mul_zero(0);
        assert(fx_mul_s(-1 * sc, 1 * sc) == -1 * 1 * sc);
    }
    assert(rec.front_face);
}

/// With exactly two spheres that intersect a ray at the same parameter,
/// the scene returns the first-listed sphere's record: a later hit at
/// exactly the current closest bound is rejected.
pub proof fn lemma_world_hit_first_wins(
    objects: Seq<Sphere>,
    r: Ray,
    t_min: int,
    t_max: int,
    h0: HitS,
    h1: HitS,
)
    requires
        objects.len() == 2,
        sphere_hit_s(objects[0], r, t_min, t_max) == Option::Some(h0),
        sphere_hit_s(objects[1], r, t_min, h0.t) == Option::Some(h1),
        h1.t == h0.t,
    ensures
        world_hit_s(objects, r, t_min, t_max) == Option::Some(h0),
{
    assert(world_hit_from(objects, 2, r, t_min, h0.t, Option::Some(h0)) == Option::Some(h0));
    assert(world_hit_from(objects, 1, r, t_min, h0.t, Option::Some(h0)) == Option::Some(h0));
    assert(world_hit_from(objects, 0, r, t_min, t_max, Option::<HitS>::None)
        == Option::Some(h0));
}

impl Default for World {
    /// An empty scene.
    fn default() -> (w: World)
        ensures
            w.objects@.len() == 0,
    {
        World { objects: Vec::new() }
    }
}

impl World {
    /// The nearest intersection across every sphere, scanning linearly and
    /// shrinking the upper bound to the closest parameter found so far.
    /// A returned record always comes from one of the spheres: it is that
    /// sphere's record at its own parameter, so its position lies on the
    /// ray at that parameter and its normal obeys the front-face rule.
    pub fn hit(&self, ray: &Ray, t_min: i64, t_max: i64) -> (r: Option<HitRecord>)
        ensures
            opt_hit_view(r) == world_hit_s(self.objects@, *ray, t_min as int, t_max as int),
            r.is_some() ==> t_min <= r.unwrap().t <= t_max,
            r.is_some() ==> v3_dot_s(ray.dir@, r.unwrap().normal@) <= 0,
            r.is_some() ==> exists|i: int, bound: int|
                0 <= i && i < self.objects@.len() && r.unwrap().t <= bound && bound
                    <= t_max && #[trigger] sphere_hit_s(
                    self.objects@[i],
                    *ray,
                    t_min as int,
                    bound,
                ) == Option::Some(r.unwrap()@) && r.unwrap()@ == sphere_record_s(
                    self.objects@[i],
                    *ray,
                    r.unwrap().t as int,
                ),
    {
        let mut best: Option<HitRecord> = Option::None;
        let mut closest: i64 = t_max;
        let mut i: usize = 0;
        while i < self.objects.len()
            invariant
                i <= self.objects.len(),
                world_hit_from(
                    self.objects@,
                    i as int,
                    *ray,
                    t_min as int,
                    closest as int,
                    opt_hit_view(best),
                ) == world_hit_s(self.objects@, *ray, t_min as int, t_max as int),
                best.is_some() ==> closest == best.unwrap().t,
                best.is_none() ==> closest == t_max,
                best.is_some() ==> t_min <= best.unwrap().t <= t_max,
                best.is_some() ==> v3_dot_s(ray.dir@, best.unwrap().normal@) <= 0,
                best.is_some() ==> exists|j: int, bound: int|
                    0 <= j && j < self.objects@.len() && best.unwrap().t <= bound && bound
                        <= t_max && #[trigger] sphere_hit_s(
                        self.objects@[j],
                        *ray,
                        t_min as int,
                        bound,
                    ) == Option::Some(best.unwrap()@) && best.unwrap()@ == sphere_record_s(
                        self.objects@[j],
                        *ray,
                        best.unwrap().t as int,
                    ),
            decreases self.objects.len() - i,
        {
            let found: Option<HitRecord> = self.objects[i].hit(ray, t_min, closest);
            let ghost prev_bound: int = closest as int;
            match found {
                Option::Some(rec) => {
                    if best.is_none() || rec.t < closest {
                        closest = rec.t;
                        best = Option::Some(rec);
                        proof {
                            assert(0 <= i as int && (i as int) < self.objects@.len() && rec.t
                                <= prev_bound && prev_bound <= t_max && sphere_hit_s(
                                self.objects@[i as int],
                                *ray,
                                t_min as int,
                                prev_bound,
                            ) == Option::Some(rec@) && rec@ == sphere_record_s(
                                self.objects@[i as int],
                                *ray,
                                rec.t as int,
                            ));
                        }
                    }
                },
                Option::None => {},
            }
            i = i + 1;
        }
        best
    }
}

} // verus!
