//! Demo scene assembly: a large ground sphere, three feature spheres, and
//! a field of small randomly placed and randomly shaded spheres.

use vstd::prelude::*;
use crate::fixed::SCALE;
use crate::fixed::fx_add;
use crate::fixed::fx_mul;
use crate::fixed::fx_of;
use crate::fixed::lemma_fx_mul_unit_le;
use crate::hittable::Sphere;
use crate::hittable::World;
use crate::material::Dielectric;
use crate::material::Lambertian;
use crate::material::Material;
use crate::material::Metal;
use crate::rng::random_fx;
use crate::vec3::V3;
use crate::vec3::Vec3;
use crate::vec3::v3_cmul_s;
use crate::vec3::v3_len_s;
use crate::vec3::v3_sub_s;
use crate::vec3::vec3;

verus! {

/// A material whose parameters lie in their physical ranges: albedo
/// channels in `[0, 1]`, metal fuzz in `[0, 1]`, a strictly positive
/// refractive index.
pub open spec fn material_wf(m: Material) -> bool {
    match m {
        Material::Lambertian(l) => 0 <= l.albedo@.x <= SCALE as int && 0 <= l.albedo@.y
            <= SCALE as int && 0 <= l.albedo@.z <= SCALE as int,
        Material::Metal(mt) => 0 <= mt.albedo@.x <= SCALE as int && 0 <= mt.albedo@.y
            <= SCALE as int && 0 <= mt.albedo@.z <= SCALE as int && 0 <= mt.fuzz
            <= SCALE as int,
        Material::Dielectric(d) => d.ir > 0,
    }
}

/// Every sphere has a strictly positive radius and a well-formed material.
pub open spec fn world_wf(objects: Seq<Sphere>) -> bool {
    forall|i: int|
        0 <= i < objects.len() ==> (#[trigger] objects[i]).radius > 0 && material_wf(
            objects[i].material,
        )
}

/// The fixed ground sphere of the demo scene.
pub open spec fn ground_sphere_s() -> Sphere {
    Sphere {
        center: Vec3 { x: 0, y: -65536000i64, z: 0 },
        radius: 65536000,
        material: Material::Lambertian(
            Lambertian { albedo: Vec3 { x: 32768, y: 32768, z: 32768 } },
        ),
    }
}

/// The fixed diffuse feature sphere of the demo scene.
pub open spec fn diffuse_sphere_s() -> Sphere {
    Sphere {
        center: Vec3 { x: -262144i64, y: 65536, z: 0 },
        radius: 65536,
        material: Material::Lambertian(
            Lambertian { albedo: Vec3 { x: 26214, y: 13107, z: 6553 } },
        ),
    }
}

/// The fixed glass feature sphere of the demo scene.
pub open spec fn glass_sphere_s() -> Sphere {
    Sphere {
        center: Vec3 { x: 0, y: 65536, z: 0 },
        radius: 65536,
        material: Material::Dielectric(Dielectric { ir: 98304 }),
    }
}

/// The fixed metal feature sphere of the demo scene.
pub open spec fn metal_sphere_s() -> Sphere {
    Sphere {
        center: Vec3 { x: 262144, y: 65536, z: 0 },
        radius: 65536,
        material: Material::Metal(
            Metal { albedo: Vec3 { x: 45875, y: 39321, z: 32768 }, fuzz: 0 },
        ),
    }
}

/// A small sphere of the random field: radius and height one fifth of a
/// unit, placed on the jittered grid away from the metal feature sphere,
/// with a material drawn from the documented ranges — a diffuse albedo
/// that is a componentwise product of two unit-cube draws, a light metal
/// with bounded fuzz, or glass of index 1.5.
pub open spec fn tail_sphere_ok_s(s: Sphere) -> bool {
    &&& s.radius == 13107
    &&& s.center@.y == 13107
    &&& -720896 <= s.center@.x <= 720896
    &&& -720896 <= s.center@.z <= 720896
    &&& v3_len_s(v3_sub_s(s.center@, V3 { x: 262144, y: 13107, z: 0 })) > 58982
    &&& match s.material {
        Material::Lambertian(l) => exists|c1: V3, c2: V3|
            0 <= c1.x && c1.x < SCALE as int && 0 <= c1.y && c1.y < SCALE as int && 0 <= c1.z
                && c1.z < SCALE as int && 0 <= c2.x && c2.x < SCALE as int && 0 <= c2.y && c2.y
                < SCALE as int && 0 <= c2.z && c2.z < SCALE as int && l.albedo@
                == #[trigger] v3_cmul_s(c1, c2),
        Material::Metal(m) => 32768 <= m.albedo@.x < SCALE as int && 32768 <= m.albedo@.y
            < SCALE as int && 32768 <= m.albedo@.z < SCALE as int && 0 <= m.fuzz < 32768,
        Material::Dielectric(d) => d.ir == 98304,
    }
}

/// Build the demo scene: the four fixed spheres, then a grid of small
/// spheres at jittered positions, each diffuse, metallic or glass by a
/// random draw, skipping positions too close to the metal feature sphere.
/// Every produced sphere is well-formed.
pub fn create_random_scene(rng: &mut rand::rngs::StdRng) -> (w: World)
    ensures
        world_wf(w.objects@),
        4 <= w.objects@.len() <= 488,
        w.objects@[0] == ground_sphere_s(),
        w.objects@[1] == diffuse_sphere_s(),
        w.objects@[2] == glass_sphere_s(),
        w.objects@[3] == metal_sphere_s(),
        forall|i: int| 4 <= i && i < w.objects@.len() ==> tail_sphere_ok_s(#[trigger] w.objects@[i]),
{
    let mut world: World = World::default();

    let ground_material: Material = Material::Lambertian(
        Lambertian::new(vec3(32768, 32768, 32768)),
    );
    let lambertian_material: Material = Material::Lambertian(
        Lambertian::new(vec3(26214, 13107, 6553)),
    );
    let metal_material: Material = Material::Metal(Metal::new(vec3(45875, 39321, 32768), 0));
    let dielectric_material: Material = Material::Dielectric(Dielectric::new(98304));

    world.objects.push(
        Sphere { center: vec3(0, -65536000, 0), radius: 65536000, material: ground_material },
    );
    world.objects.push(
        Sphere { center: vec3(-262144, 65536, 0), radius: 65536, material: lambertian_material },
    );
    world.objects.push(
        Sphere { center: vec3(0, 65536, 0), radius: 65536, material: dielectric_material },
    );
    world.objects.push(
        Sphere { center: vec3(262144, 65536, 0), radius: 65536, material: metal_material },
    );

    let mut a: i64 = -11;
    while a < 11
        invariant
            -11 <= a <= 11,
            world_wf(world.objects@),
            world.objects@.len() >= 4,
            world.objects@.len() <= 4 + (a + 11) * 22,
            world.objects@[0] == ground_sphere_s(),
            world.objects@[1] == diffuse_sphere_s(),
            world.objects@[2] == glass_sphere_s(),
            world.objects@[3] == metal_sphere_s(),
            forall|i: int|
                4 <= i && i < world.objects@.len() ==> tail_sphere_ok_s(
                    #[trigger] world.objects@[i],
                ),
        decreases 11 - a,
    {
        let mut b: i64 = -11;
        while b < 11
            invariant
                -11 <= a < 11,
                -11 <= b <= 11,
                world_wf(world.objects@),
                world.objects@.len() >= 4,
                world.objects@.len() <= 4 + (a + 11) * 22 + (b + 11),
                world.objects@[0] == ground_sphere_s(),
                world.objects@[1] == diffuse_sphere_s(),
                world.objects@[2] == glass_sphere_s(),
                world.objects@[3] == metal_sphere_s(),
                forall|i: int|
                    4 <= i && i < world.objects@.len() ==> tail_sphere_ok_s(
                        #[trigger] world.objects@[i],
                    ),
            decreases 11 - b,
        {
            let choose_mat: i64 = random_fx(rng, 0, SCALE);
            let dx: i64 = random_fx(rng, 0, SCALE);
            let dz: i64 = random_fx(rng, 0, SCALE);
            proof {
                lemma_fx_mul_unit_le(58982, dx as int);
                lemma_fx_mul_unit_le(58982, dz as int);
            }
            let center: Vec3 = vec3(
                fx_add(fx_of(a), fx_mul(58982, dx)),
                13107,
                fx_add(fx_of(b), fx_mul(58982, dz)),
            );

            if center.sub(vec3(262144, 13107, 0)).length() > 58982 {
                if choose_mat < 52428 {
                    let c1x: i64 = random_fx(rng, 0, SCALE);
                    let c1y: i64 = random_fx(rng, 0, SCALE);
                    let c1z: i64 = random_fx(rng, 0, SCALE);
                    let color1: Vec3 = vec3(c1x, c1y, c1z);
                    let color2: Vec3 = vec3(
                        random_fx(rng, 0, SCALE),
                        random_fx(rng, 0, SCALE),
                        random_fx(rng, 0, SCALE),
                    );
                    let albedo: Vec3 = color1.cmul(color2);
                    proof {
                        lemma_fx_mul_unit_le(color1@.x, color2@.x);
                        lemma_fx_mul_unit_le(color1@.y, color2@.y);
                        lemma_fx_mul_unit_le(color1@.z, color2@.z);
                    }
                    let material: Material = Material::Lambertian(Lambertian::new(albedo));
                    let sphere: Sphere = Sphere { center, radius: 13107, material };
                    proof {
                        assert(exists|c1: V3, c2: V3|
                            0 <= c1.x && c1.x < SCALE as int && 0 <= c1.y && c1.y < SCALE as int
                                && 0 <= c1.z && c1.z < SCALE as int && 0 <= c2.x && c2.x
                                < SCALE as int && 0 <= c2.y && c2.y < SCALE as int && 0 <= c2.z
                                && c2.z < SCALE as int && albedo@ == #[trigger] v3_cmul_s(
                                c1,
                                c2,
                            )) by {
                            assert(albedo@ == v3_cmul_s(color1@, color2@));
                        }
                        assert(tail_sphere_ok_s(sphere));
                    }
                    world.objects.push(sphere);
                } else if choose_mat < 62259 {
                    let albedo: Vec3 = vec3(
                        random_fx(rng, 32768, SCALE),
                        random_fx(rng, 32768, SCALE),
                        random_fx(rng, 32768, SCALE),
                    );
                    let fuzz: i64 = random_fx(rng, 0, 32768);
                    let material: Material = Material::Metal(Metal::new(albedo, fuzz));
                    let sphere: Sphere = Sphere { center, radius: 13107, material };
                    proof {
                        assert(tail_sphere_ok_s(sphere));
                    }
                    world.objects.push(sphere);
                } else {
                    let material: Material = Material::Dielectric(Dielectric::new(98304));
                    let sphere: Sphere = Sphere { center, radius: 13107, material };
                    proof {
                        assert(tail_sphere_ok_s(sphere));
                    }
                    world.objects.push(sphere);
                }
            }
            b = b + 1;
        }
        a = a + 1;
    }

    world
}

} // verus!
