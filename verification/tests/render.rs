use pathtracer::SCALE;
use pathtracer::camera::Camera;
use pathtracer::hittable::Sphere;
use pathtracer::hittable::World;
use pathtracer::material::Lambertian;
use pathtracer::material::Material;
use pathtracer::rng::random_point_in_unit_disc;
use pathtracer::rng::random_point_in_unit_sphere;
use pathtracer::scene::create_random_scene;
use pathtracer::tracer::render;
use pathtracer::vec3::vec3;
use rand::SeedableRng;
use rand::rngs::StdRng;

fn ground_only_world() -> World {
    let ground = Sphere {
        center: vec3(0, -1000 * SCALE, 0),
        radius: 1000 * SCALE,
        material: Material::Lambertian(Lambertian::new(vec3(SCALE / 2, SCALE / 2, SCALE / 2))),
    };
    World { objects: vec![ground] }
}

fn horizon_camera() -> Camera {
    Camera::new(
        vec3(0, 2 * SCALE, 0),
        vec3(0, 2 * SCALE, -SCALE),
        90 * SCALE,
        98304,  // aspect ratio 1.5
        0,      // no aperture: the lens adds no jitter
        SCALE,
    )
}

#[test]
fn flat_shaded_silhouette_over_sky() {
    // A single huge ground sphere, one sample per pixel, no recursion:
    // every pixel is either the black silhouette (a hit exhausts the
    // depth budget immediately) or a sky gradient sample.
    let world = ground_only_world();
    let camera = horizon_camera();
    let mut rng = StdRng::seed_from_u64(11);
    let pixels = render(&camera, &world, 12, 8, 1, 0, &mut rng);
    assert_eq!(pixels.len(), 96);

    let mut silhouette = 0;
    let mut sky = 0;
    for p in pixels.iter() {
        if p.r == 0 && p.g == 0 && p.b == 0 {
            silhouette += 1;
        } else {
            // sky samples satisfy red <= green <= blue with a full blue channel
            assert!(p.r <= p.g && p.g <= p.b, "not a sky shade: {:?}", p);
            assert_eq!(p.b, 255);
            sky += 1;
        }
    }
    assert!(silhouette > 0, "the ground sphere never showed");
    assert!(sky > 0, "the sky never showed");

    // rows are emitted top-down: the first row is sky, the last is ground
    assert!(pixels[0].b == 255);
    let last = pixels[pixels.len() - 1];
    assert!(last.r == 0 && last.g == 0 && last.b == 0);
}

#[test]
fn seeded_renders_are_identical() {
    let camera = horizon_camera();
    let mut rng_a = StdRng::seed_from_u64(42);
    let world_a = create_random_scene(&mut rng_a);
    let first = render(&camera, &world_a, 6, 4, 2, 4, &mut rng_a);

    let mut rng_b = StdRng::seed_from_u64(42);
    let world_b = create_random_scene(&mut rng_b);
    let second = render(&camera, &world_b, 6, 4, 2, 4, &mut rng_b);

    assert_eq!(first.len(), second.len());
    for (a, b) in first.iter().zip(second.iter()) {
        assert_eq!(a, b);
    }
}

#[test]
fn different_seeds_change_the_noise() {
    let camera = horizon_camera();
    let world = ground_only_world();
    let mut rng_a = StdRng::seed_from_u64(1);
    let first = render(&camera, &world, 8, 6, 2, 3, &mut rng_a);
    let mut rng_b = StdRng::seed_from_u64(2);
    let second = render(&camera, &world, 8, 6, 2, 3, &mut rng_b);
    assert!(
        first.iter().zip(second.iter()).any(|(a, b)| a != b),
        "two different seeds produced identical noise"
    );
}

#[test]
fn render_emits_bounded_channels() {
    let camera = horizon_camera();
    let world = ground_only_world();
    let mut rng = StdRng::seed_from_u64(5);
    let pixels = render(&camera, &world, 10, 6, 2, 3, &mut rng);
    assert_eq!(pixels.len(), 60);
    for p in pixels.iter() {
        assert!(p.r <= 255 && p.g <= 255 && p.b <= 255);
    }
}

#[test]
fn demo_scene_is_well_formed() {
    let mut rng = StdRng::seed_from_u64(9);
    let world = create_random_scene(&mut rng);
    assert!(world.objects.len() >= 4);

    let ground = world.objects[0];
    assert_eq!(ground.center, vec3(0, -1000 * SCALE, 0));
    assert_eq!(ground.radius, 1000 * SCALE);

    assert_eq!(world.objects[1].center, vec3(-4 * SCALE, SCALE, 0));
    assert_eq!(world.objects[2].center, vec3(0, SCALE, 0));
    assert_eq!(world.objects[3].center, vec3(4 * SCALE, SCALE, 0));
    match world.objects[2].material {
        Material::Dielectric(d) => assert_eq!(d.ir, 98304),
        _ => panic!("the middle feature sphere should be glass"),
    }

    assert!(world.objects.len() <= 488);
    for s in world.objects.iter().skip(4) {
        assert_eq!(s.radius, 13107);
        assert_eq!(s.center.y, 13107);
        let to_metal = s.center.sub(vec3(4 * SCALE, 13107, 0));
        assert!(to_metal.length() > 58982);
        match s.material {
            Material::Metal(m) => {
                assert!(32768 <= m.albedo.x && m.albedo.x < SCALE);
                assert!(0 <= m.fuzz && m.fuzz < 32768);
            }
            Material::Dielectric(d) => assert_eq!(d.ir, 98304),
            Material::Lambertian(_) => {}
        }
    }

    for s in world.objects.iter() {
        assert!(s.radius > 0);
        match s.material {
            Material::Lambertian(l) => {
                assert!(0 <= l.albedo.x && l.albedo.x <= SCALE);
                assert!(0 <= l.albedo.y && l.albedo.y <= SCALE);
                assert!(0 <= l.albedo.z && l.albedo.z <= SCALE);
            }
            Material::Metal(m) => {
                assert!(0 <= m.fuzz && m.fuzz <= SCALE);
                assert!(0 <= m.albedo.x && m.albedo.x <= SCALE);
            }
            Material::Dielectric(d) => assert!(d.ir > 0),
        }
    }
}

#[test]
fn unit_sphere_samples_stay_inside() {
    let mut rng = StdRng::seed_from_u64(77);
    for _ in 0..200 {
        let p = random_point_in_unit_sphere(&mut rng);
        assert!(p.length() < SCALE);
    }
}

#[test]
fn unit_disc_samples_stay_inside_the_plane() {
    let mut rng = StdRng::seed_from_u64(78);
    for _ in 0..200 {
        let p = random_point_in_unit_disc(&mut rng);
        assert!(p.length_squared() < SCALE);
        assert_eq!(p.z, 0);
    }
}

#[test]
fn samplers_actually_draw() {
    // If the underlying draw handed back a constant bound, rejection would
    // always fail and every sample would collapse to the origin.
    let mut rng = StdRng::seed_from_u64(79);
    let mut nonzero = 0;
    for _ in 0..20 {
        let p = random_point_in_unit_sphere(&mut rng);
        if p != vec3(0, 0, 0) {
            nonzero += 1;
        }
    }
    assert!(nonzero > 0);
}
