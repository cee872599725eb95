use pathtracer::SCALE;
use pathtracer::vec3::Vec3;
use pathtracer::vec3::vec3;

#[test]
fn componentwise_arithmetic() {
    let a = vec3(SCALE, 2 * SCALE, 3 * SCALE);
    let c = vec3(10 * SCALE, 20 * SCALE, 30 * SCALE);

    let d = a.add(c);
    assert_eq!(d, vec3(11 * SCALE, 22 * SCALE, 33 * SCALE));

    let e = d.sub(a).sub(a).add(vec3(100 * SCALE, 200 * SCALE, 300 * SCALE));
    assert_eq!(e, vec3(109 * SCALE, 218 * SCALE, 327 * SCALE));

    assert_eq!(a.neg(), vec3(-SCALE, -2 * SCALE, -3 * SCALE));
    assert_eq!(a.scale(2 * SCALE), vec3(2 * SCALE, 4 * SCALE, 6 * SCALE));
    assert_eq!(vec3(SCALE / 2, 0, 0).cmul(vec3(SCALE / 2, SCALE, 0)), vec3(SCALE / 4, 0, 0));
    assert_eq!(a.div_fx(2 * SCALE), vec3(SCALE / 2, SCALE, 3 * SCALE / 2));
}

#[test]
fn default_is_zero() {
    let z: Vec3 = Default::default();
    assert_eq!(z, vec3(0, 0, 0));
    assert_eq!(Vec3::zero(), vec3(0, 0, 0));
}

#[test]
fn dot_and_lengths() {
    let a = vec3(SCALE, 2 * SCALE, 3 * SCALE);
    assert_eq!(a.length_squared(), 14 * SCALE);
    // sqrt(14) * 65536 = 245213.6
    assert_eq!(a.length(), 245213);

    let c = vec3(10 * SCALE, 20 * SCALE, 30 * SCALE);
    assert_eq!(c.dot(c), 1400 * SCALE);
}

#[test]
fn cross_of_parallel_vectors_is_zero() {
    let c = vec3(10 * SCALE, 20 * SCALE, 30 * SCALE);
    let d = c.scale(3 * SCALE);
    assert_eq!(c.cross(d), vec3(0, 0, 0));
}

#[test]
fn cross_of_basis_vectors() {
    let x = vec3(SCALE, 0, 0);
    let y = vec3(0, SCALE, 0);
    assert_eq!(x.cross(y), vec3(0, 0, SCALE));
    assert_eq!(y.cross(x), vec3(0, 0, -SCALE));
}

#[test]
fn normalize_three_four_five() {
    let v = vec3(3 * SCALE, 4 * SCALE, 0);
    assert_eq!(v.length(), 5 * SCALE);
    let n = v.normalize();
    // 3/5 and 4/5 in raw units, truncated
    assert_eq!(n, vec3(39321, 52428, 0));
}

#[test]
fn normalize_of_zero_is_zero() {
    assert_eq!(vec3(0, 0, 0).normalize(), vec3(0, 0, 0));
}

#[test]
fn reflection_about_a_normal() {
    let v = vec3(SCALE, -SCALE, 0);
    let n = vec3(0, SCALE, 0);
    assert_eq!(v.reflect(n), vec3(SCALE, SCALE, 0));
}

#[test]
fn refraction_straight_through() {
    let uv = vec3(0, -SCALE, 0);
    let n = vec3(0, SCALE, 0);
    assert_eq!(uv.refract(n, SCALE), vec3(0, -SCALE, 0));
}

#[test]
fn clamp_and_sqrt_componentwise() {
    let v = vec3(4 * SCALE, 9 * SCALE, -SCALE);
    assert_eq!(v.sqrt(), vec3(2 * SCALE, 3 * SCALE, 0));
    assert_eq!(v.clamp(0, SCALE), vec3(SCALE, SCALE, 0));
}

#[test]
fn equality_is_componentwise() {
    let a = vec3(SCALE, 2 * SCALE, 3 * SCALE);
    let b = vec3(SCALE, 2 * SCALE, 3 * SCALE);
    assert!(a == b);
    assert!(a != vec3(SCALE, 2 * SCALE, 3 * SCALE + 1));
}
