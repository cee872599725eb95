use pathtracer::SCALE;
use pathtracer::hittable::HitRecord;
use pathtracer::hittable::Sphere;
use pathtracer::hittable::World;
use pathtracer::material::Lambertian;
use pathtracer::material::Material;
use pathtracer::ray::Ray;
use pathtracer::tracer::ray_color;
use pathtracer::tracer::sky_color;
use pathtracer::vec3::vec3;
use rand::SeedableRng;
use rand::rngs::StdRng;

fn gray() -> Material {
    Material::Lambertian(Lambertian::new(vec3(SCALE / 2, SCALE / 2, SCALE / 2)))
}

#[test]
fn axial_sphere_hit_at_analytic_distance() {
    // Unit sphere five units down the axis: the near surface is at t = 4.
    let s = Sphere { center: vec3(0, 0, -5 * SCALE), radius: SCALE, material: gray() };
    let ray = Ray { origin: vec3(0, 0, 0), dir: vec3(0, 0, -SCALE) };
    let rec = s.hit(&ray, 0, 10 * SCALE).expect("the ray points straight at the sphere");
    assert_eq!(rec.t, 4 * SCALE);
    assert_eq!(rec.pos, vec3(0, 0, -4 * SCALE));
    assert_eq!(rec.normal, vec3(0, 0, SCALE));
    assert!(rec.front_face);
}

#[test]
fn larger_root_taken_when_origin_is_inside() {
    // From the center of the same sphere, the smaller root is negative and
    // the far surface at t = 1 is returned, with the normal flipped inward.
    let s = Sphere { center: vec3(0, 0, -5 * SCALE), radius: SCALE, material: gray() };
    let ray = Ray { origin: vec3(0, 0, -5 * SCALE), dir: vec3(0, 0, -SCALE) };
    let rec = s.hit(&ray, 0, 10 * SCALE).expect("the origin is inside the sphere");
    assert_eq!(rec.t, SCALE);
    assert!(!rec.front_face);
    assert_eq!(rec.normal, vec3(0, 0, SCALE));
}

#[test]
fn miss_and_window_rejection() {
    let s = Sphere { center: vec3(0, 0, -5 * SCALE), radius: SCALE, material: gray() };
    let away = Ray { origin: vec3(0, 0, 0), dir: vec3(0, 0, SCALE) };
    assert!(s.hit(&away, 0, 10 * SCALE).is_none());
    let toward = Ray { origin: vec3(0, 0, 0), dir: vec3(0, 0, -SCALE) };
    // both roots (4 and 6) fall outside [0, 2]
    assert!(s.hit(&toward, 0, 2 * SCALE).is_none());
}

#[test]
fn returned_normal_is_unit_and_faces_the_ray() {
    // An off-axis ray: the normal's squared length stays within a few
    // raw steps of one, and never points along the ray.
    let s = Sphere { center: vec3(0, 0, -5 * SCALE), radius: SCALE, material: gray() };
    let ray = Ray { origin: vec3(13107, 6553, 0), dir: vec3(-6553, -3276, -SCALE) };
    let rec = s.hit(&ray, 0, 100 * SCALE).expect("the skew ray still hits");
    let lsq = rec.normal.length_squared();
    assert!((lsq - SCALE).abs() <= 700, "normal squared length {} strays from one", lsq);
    assert!(ray.dir.dot(rec.normal) <= 0);
}

#[test]
fn world_prefers_the_nearest_sphere() {
    let near = Sphere { center: vec3(0, 0, -3 * SCALE), radius: SCALE, material: gray() };
    let far = Sphere { center: vec3(0, 0, -8 * SCALE), radius: SCALE, material: gray() };
    let world = World { objects: vec![far, near] };
    let ray = Ray { origin: vec3(0, 0, 0), dir: vec3(0, 0, -SCALE) };
    let rec = world.hit(&ray, 0, 100 * SCALE).expect("two candidates");
    assert_eq!(rec.t, 2 * SCALE);
}

#[test]
fn equal_parameter_tie_goes_to_the_first_listed_sphere() {
    // Two coincident spheres: both intersect at exactly t = 4, and the
    // first-listed one's material is returned.
    let first = Sphere {
        center: vec3(0, 0, -5 * SCALE),
        radius: SCALE,
        material: Material::Lambertian(Lambertian::new(vec3(SCALE, 0, 0))),
    };
    let second = Sphere {
        center: vec3(0, 0, -5 * SCALE),
        radius: SCALE,
        material: Material::Lambertian(Lambertian::new(vec3(0, SCALE, 0))),
    };
    let world = World { objects: vec![first, second] };
    let ray = Ray { origin: vec3(0, 0, 0), dir: vec3(0, 0, -SCALE) };
    let rec = world.hit(&ray, 0, 100 * SCALE).expect("both spheres are in front");
    assert_eq!(rec.t, 4 * SCALE);
    match rec.material {
        Material::Lambertian(l) => assert_eq!(l.albedo, vec3(SCALE, 0, 0)),
        _ => panic!("expected the first sphere's diffuse material"),
    }
}

#[test]
fn empty_world_returns_nothing() {
    let world: World = Default::default();
    let ray = Ray { origin: vec3(0, 0, 0), dir: vec3(0, 0, -SCALE) };
    assert!(world.hit(&ray, 0, 100 * SCALE).is_none());
}

#[test]
fn degenerate_zero_direction_is_a_miss() {
    let s = Sphere { center: vec3(0, 0, -5 * SCALE), radius: SCALE, material: gray() };
    let ray = Ray { origin: vec3(0, 0, 0), dir: vec3(0, 0, 0) };
    assert!(s.hit(&ray, 0, 100 * SCALE).is_none());
}

#[test]
fn sky_gradient_straight_up_and_down() {
    let up = Ray { origin: vec3(0, 0, 0), dir: vec3(0, SCALE, 0) };
    assert_eq!(sky_color(&up), vec3(SCALE / 2, 45875, SCALE));
    let down = Ray { origin: vec3(0, 0, 0), dir: vec3(0, -SCALE, 0) };
    assert_eq!(sky_color(&down), vec3(SCALE, SCALE, SCALE));
}

#[test]
fn ray_color_at_negative_depth_is_black() {
    let mut rng = StdRng::seed_from_u64(1);
    let s = Sphere { center: vec3(0, 0, -5 * SCALE), radius: SCALE, material: gray() };
    let world = World { objects: vec![s] };
    let ray = Ray { origin: vec3(0, 0, 0), dir: vec3(0, 0, -SCALE) };
    assert_eq!(ray_color(&ray, &world, -1, &mut rng), vec3(0, 0, 0));
    let skyward = Ray { origin: vec3(0, 0, 0), dir: vec3(0, SCALE, 0) };
    assert_eq!(ray_color(&skyward, &world, -1, &mut rng), vec3(0, 0, 0));
}

#[test]
fn ray_color_misses_give_exactly_the_sky() {
    let mut rng = StdRng::seed_from_u64(1);
    let world: World = Default::default();
    let up = Ray { origin: vec3(0, 0, 0), dir: vec3(0, SCALE, 0) };
    assert_eq!(ray_color(&up, &world, 5, &mut rng), vec3(SCALE / 2, 45875, SCALE));
    let down = Ray { origin: vec3(0, 0, 0), dir: vec3(0, -SCALE, 0) };
    assert_eq!(ray_color(&down, &world, 5, &mut rng), vec3(SCALE, SCALE, SCALE));
}

#[test]
fn face_normal_orientation_follows_the_convention() {
    let mut rec = HitRecord {
        pos: vec3(0, 0, 0),
        normal: vec3(0, 0, 0),
        t: 0,
        front_face: false,
        material: gray(),
    };
    let ray = Ray { origin: vec3(0, 0, 0), dir: vec3(0, -SCALE, 0) };
    rec.set_face_normal(&ray, vec3(0, SCALE, 0));
    assert!(rec.front_face);
    assert_eq!(rec.normal, vec3(0, SCALE, 0));
    rec.set_face_normal(&ray, vec3(0, -SCALE, 0));
    assert!(!rec.front_face);
    assert_eq!(rec.normal, vec3(0, SCALE, 0));
}
