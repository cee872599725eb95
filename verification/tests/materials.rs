use pathtracer::SCALE;
use pathtracer::hittable::HitRecord;
use pathtracer::material::Dielectric;
use pathtracer::material::Lambertian;
use pathtracer::material::Metal;
use pathtracer::ray::Ray;
use pathtracer::vec3::vec3;
use rand::SeedableRng;
use rand::rngs::StdRng;

fn surface_record(material: pathtracer::material::Material) -> HitRecord {
    HitRecord {
        pos: vec3(0, 0, 0),
        normal: vec3(0, SCALE, 0),
        t: SCALE,
        front_face: true,
        material,
    }
}

#[test]
fn lambertian_always_scatters_with_its_albedo() {
    let albedo = vec3(SCALE / 4, SCALE / 2, SCALE / 4);
    let m = Lambertian::new(albedo);
    let rec = surface_record(pathtracer::material::Material::Lambertian(m));
    for seed in 0..20 {
        let mut rng = StdRng::seed_from_u64(seed);
        let (attenuation, scattered) = m.scatter(&rec, &mut rng).expect("diffuse always scatters");
        assert_eq!(attenuation, albedo);
        assert_eq!(scattered.origin, vec3(0, 0, 0));
        // the scatter direction leaves the surface or falls back to the normal
        assert!(scattered.dir.length() > 0);
    }
}

#[test]
fn metal_absorbs_grazing_reflections() {
    // The ray runs parallel to the surface: the reflection's dot with the
    // normal is exactly zero, so the ray must be absorbed, whatever the
    // random perturbation (fuzz is zero).
    let m = Metal::new(vec3(SCALE, SCALE, SCALE), 0);
    let rec = surface_record(pathtracer::material::Material::Metal(m));
    let grazing = Ray { origin: vec3(-SCALE, 0, 0), dir: vec3(SCALE, 0, 0) };
    for seed in 0..20 {
        let mut rng = StdRng::seed_from_u64(seed);
        assert!(m.scatter(&grazing, &rec, &mut rng).is_none());
    }
}

#[test]
fn metal_reflects_an_incoming_ray() {
    let albedo = vec3(45875, 39321, SCALE / 2);
    let m = Metal::new(albedo, 0);
    let rec = surface_record(pathtracer::material::Material::Metal(m));
    let down = Ray { origin: vec3(0, SCALE, 0), dir: vec3(0, -SCALE, 0) };
    let mut rng = StdRng::seed_from_u64(3);
    let (attenuation, scattered) = m.scatter(&down, &rec, &mut rng).expect(
        "a head-on reflection points away from the surface",
    );
    assert_eq!(attenuation, albedo);
    assert_eq!(scattered.dir, vec3(0, SCALE, 0));
    assert!(scattered.dir.dot(rec.normal) > 0);
}

#[test]
fn schlick_reflectance_at_full_cosine_is_r0_squared() {
    let d = Dielectric::new(98304);  // index 1.5
    // r0 = (1 - 1.5) / (1 + 1.5) = -13107 raw; r0^2 = 2621 raw
    assert_eq!(d.calc_reflectance(SCALE, 98304), 2621);
}

#[test]
fn schlick_reflectance_stays_in_unit_range() {
    let d = Dielectric::new(98304);
    let cosines = [0, 1, 100, SCALE / 4, SCALE / 2, SCALE - 1, SCALE];
    let indices = [1, 32768, SCALE, 98304, 2 * SCALE, 100 * SCALE];
    for &c in cosines.iter() {
        for &ir in indices.iter() {
            let r = d.calc_reflectance(c, ir);
            assert!(0 <= r && r <= SCALE, "reflectance {} for cos {} ir {}", r, c, ir);
        }
    }
    // at a fully grazing view the approximation reaches total reflection
    assert_eq!(d.calc_reflectance(0, 98304), SCALE);
}

#[test]
fn dielectric_always_scatters_without_absorption() {
    let d = Dielectric::new(98304);
    let rec = surface_record(pathtracer::material::Material::Dielectric(d));
    let slanted = Ray { origin: vec3(0, SCALE, 0), dir: vec3(SCALE / 2, -SCALE, 0) };
    for seed in 0..20 {
        let mut rng = StdRng::seed_from_u64(seed);
        let (attenuation, scattered) = d.scatter(&slanted, &rec, &mut rng).expect(
            "a dielectric never absorbs",
        );
        assert_eq!(attenuation, vec3(SCALE, SCALE, SCALE));
        assert_eq!(scattered.origin, rec.pos);
    }
}

#[test]
fn dielectric_total_internal_reflection() {
    // Leaving glass (back face, ratio 1.5) at a shallow angle: Snell's law
    // has no solution and the ray must reflect, deterministically.
    let d = Dielectric::new(98304);
    let rec = HitRecord {
        pos: vec3(0, 0, 0),
        normal: vec3(0, SCALE, 0),
        t: SCALE,
        front_face: false,
        material: pathtracer::material::Material::Dielectric(d),
    };
    let shallow = Ray { origin: vec3(-SCALE, SCALE, 0), dir: vec3(SCALE, -13107, 0) };
    let unit = shallow.dir.normalize();
    let expected = unit.reflect(rec.normal);
    for seed in 0..20 {
        let mut rng = StdRng::seed_from_u64(seed);
        let (_, scattered) = d.scatter(&shallow, &rec, &mut rng).unwrap();
        assert_eq!(scattered.dir, expected);
    }
}
