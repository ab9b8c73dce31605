use pathtracer::double::Double;
use pathtracer::ray::Ray;
use pathtracer::vec3::Vec3;

fn d(x: f64) -> Double {
    Double::from_bits(x.to_bits())
}

fn f(x: Double) -> f64 {
    f64::from_bits(x.to_bits())
}

fn v(x: f64, y: f64, z: f64) -> Vec3 {
    Vec3::new(d(x), d(y), d(z))
}

fn bits(a: Vec3) -> [u64; 3] {
    [a.x.to_bits(), a.y.to_bits(), a.z.to_bits()]
}

fn fbits(x: f64, y: f64, z: f64) -> [u64; 3] {
    [x.to_bits(), y.to_bits(), z.to_bits()]
}

fn dot_f(a: [f64; 3], b: [f64; 3]) -> f64 {
    a[0] * b[0] + a[1] * b[1] + a[2] * b[2]
}

fn reflect_f(a: [f64; 3], n: [f64; 3]) -> [f64; 3] {
    let k = 2.0 * dot_f(a, n);
    [a[0] - k * n[0], a[1] - k * n[1], a[2] - k * n[2]]
}

fn refract_f(a: [f64; 3], n: [f64; 3], eta: f64) -> [f64; 3] {
    let cos_theta = dot_f([-a[0], -a[1], -a[2]], n).min(1.0);
    let perp = [
        eta * (a[0] + cos_theta * n[0]),
        eta * (a[1] + cos_theta * n[1]),
        eta * (a[2] + cos_theta * n[2]),
    ];
    let k = -((1.0 - dot_f(perp, perp)).abs()).sqrt();
    [perp[0] + k * n[0], perp[1] + k * n[1], perp[2] + k * n[2]]
}

#[test]
fn default_is_the_zero_vector() {
    assert_eq!(bits(Vec3::default()), [0, 0, 0]);
}

#[test]
fn sum_difference_and_products_go_by_component() {
    let a = v(1.0, 2.0, 3.0);
    let b = v(4.0, -5.0, 0.5);
    assert_eq!(bits(a + b), fbits(5.0, -3.0, 3.5));
    assert_eq!(bits(a - b), fbits(-3.0, 7.0, 2.5));
    assert_eq!(bits(a * b), fbits(4.0, -10.0, 1.5));
    assert_eq!(bits(a * d(2.0)), fbits(2.0, 4.0, 6.0));
    assert_eq!(bits(d(2.0) * a), fbits(2.0, 4.0, 6.0));
    assert_eq!(bits(a / d(2.0)), fbits(0.5, 1.0, 1.5));
    assert_eq!(bits(a.neg()), fbits(-1.0, -2.0, -3.0));
    assert_eq!(bits(-a), fbits(-1.0, -2.0, -3.0));
    assert_eq!((-d(2.5)).to_bits(), (-2.5f64).to_bits());
    assert_eq!(bits(v(0.0, -0.0, 1.0).neg()), fbits(-0.0, 0.0, -1.0));
}

#[test]
fn dot_and_cross_have_their_values() {
    let a = v(1.0, 2.0, 3.0);
    let b = v(4.0, -5.0, 6.0);
    assert_eq!(a.dot(&b).to_bits(), 12.0f64.to_bits());
    assert_eq!(bits(a.cross(&b)), fbits(27.0, 6.0, -13.0));
    assert_eq!(bits(v(1.0, 0.0, 0.0).cross(&v(0.0, 1.0, 0.0))), fbits(0.0, 0.0, 1.0));
    let p = [0.1, 0.7, -0.3];
    let q = [1.3, -2.9, 0.01];
    assert_eq!(
        v(p[0], p[1], p[2]).dot(&v(q[0], q[1], q[2])).to_bits(),
        dot_f(p, q).to_bits()
    );
}

#[test]
fn lengths_have_their_values() {
    let a = v(3.0, 4.0, 12.0);
    assert_eq!(a.squared_length().to_bits(), 169.0f64.to_bits());
    assert_eq!(a.length().to_bits(), 13.0f64.to_bits());
    assert_eq!(v(0.0, 0.0, 0.0).length().to_bits(), 0.0f64.to_bits());
}

#[test]
fn unit_vector_has_length_one() {
    let a = v(3.0, 4.0, 12.0).unit_vector();
    let k = 1.0f64 / 13.0;
    assert_eq!(bits(a), fbits(3.0 * k, 4.0 * k, 12.0 * k));
    assert!((f(a.length()) - 1.0).abs() < 1e-15);
    assert_eq!(bits(v(0.0, 2.0, 0.0).unit_vector()), fbits(0.0, 1.0, 0.0));
}

#[test]
fn unit_vector_of_the_zero_vector_is_nan() {
    let a = v(0.0, 0.0, 0.0).unit_vector();
    assert!(a.x.is_nan() && a.y.is_nan() && a.z.is_nan());
}

#[test]
fn near_zero_needs_every_component_below_epsilon() {
    assert!(v(0.0, 0.0, 0.0).near_zero());
    assert!(v(1e-17, -1e-17, 2e-16).near_zero());
    assert!(!v(1e-17, -1e-17, 2.220446049250313e-16).near_zero());
    assert!(!v(1e-15, 0.0, 0.0).near_zero());
    assert!(!v(0.0, -1.0, 0.0).near_zero());
    assert!(!v(f64::NAN, 0.0, 0.0).near_zero());
}

#[test]
fn reflect_mirrors_at_the_normal() {
    let r = v(1.0, -1.0, 0.0).reflect(&v(0.0, 1.0, 0.0));
    assert_eq!(bits(r), fbits(1.0, 1.0, 0.0));
    let a = [0.3, -0.8, 0.5];
    let n = [0.0, 0.6, 0.8];
    let e = reflect_f(a, n);
    assert_eq!(bits(v(a[0], a[1], a[2]).reflect(&v(n[0], n[1], n[2]))), fbits(e[0], e[1], e[2]));
}

#[test]
fn reflecting_twice_gives_the_vector_back() {
    let normals = [v(0.0, 1.0, 0.0), v(1.0, 0.0, 0.0), v(0.0, 0.0, -1.0)];
    let vectors = [v(1.0, -1.0, 0.0), v(0.25, 3.5, -7.0), v(-2.0, 0.5, 0.125), v(0.0, 0.0, 0.0)];
    for n in normals.iter() {
        for a in vectors.iter() {
            let back = a.reflect(n).reflect(n);
            assert_eq!(f(back.x), f(a.x));
            assert_eq!(f(back.y), f(a.y));
            assert_eq!(f(back.z), f(a.z));
        }
    }
    let n = v(0.6, 0.0, 0.8);
    let a = v(0.3, -0.8, 0.5);
    let back = a.reflect(&n).reflect(&n);
    assert!((f(back.x) - 0.3).abs() < 1e-15);
    assert!((f(back.y) + 0.8).abs() < 1e-15);
    assert!((f(back.z) - 0.5).abs() < 1e-15);
}

#[test]
fn refract_with_ratio_one_keeps_the_direction() {
    let n = v(0.0, 1.0, 0.0);
    let straight = v(0.0, -1.0, 0.0);
    assert_eq!(
        [f(straight.refract(&n, d(1.0)).x), f(straight.refract(&n, d(1.0)).y), f(straight.refract(&n, d(1.0)).z)],
        [0.0, -1.0, 0.0]
    );
    let slanted = v(0.6, -0.8, 0.0);
    let out = slanted.refract(&n, d(1.0));
    assert!((f(out.x) - 0.6).abs() < 1e-15);
    assert!((f(out.y) + 0.8).abs() < 1e-15);
    assert_eq!(f(out.z), 0.0);
}

#[test]
fn refract_bends_towards_the_normal_in_the_denser_medium() {
    let n = [0.0, 1.0, 0.0];
    let a = [0.6, -0.8, 0.0];
    let eta = 1.0 / 1.5;
    let e = refract_f(a, n, eta);
    let out = v(a[0], a[1], a[2]).refract(&v(n[0], n[1], n[2]), d(eta));
    assert_eq!(bits(out), fbits(e[0], e[1], e[2]));
    assert!((f(out.x) - 0.4).abs() < 1e-15);
    assert!((f(out.y) + (1.0f64 - 0.16).sqrt()).abs() < 1e-15);
}

#[test]
fn a_ray_is_at_origin_plus_t_times_direction() {
    let ray = Ray::new(v(1.0, 2.0, 3.0), v(0.5, -1.0, 2.0));
    assert_eq!(bits(ray.at(d(0.0))), fbits(1.0, 2.0, 3.0));
    assert_eq!(bits(ray.at(d(2.0))), fbits(2.0, 0.0, 7.0));
    assert_eq!(bits(ray.at(d(-1.0))), fbits(0.5, 3.0, 1.0));
    assert_eq!(bits(ray.origin), fbits(1.0, 2.0, 3.0));
    assert_eq!(bits(ray.direction), fbits(0.5, -1.0, 2.0));
}

#[test]
fn random_vectors_lie_in_the_unit_cube() {
    for _ in 0..500 {
        let a = Vec3::random();
        for c in [f(a.x), f(a.y), f(a.z)] {
            assert!(c >= 0.0 && c < 1.0);
        }
    }
}

#[test]
fn random_vectors_in_a_range_lie_in_it() {
    for _ in 0..500 {
        let a = Vec3::random_range(d(0.5), d(1.0));
        for c in [f(a.x), f(a.y), f(a.z)] {
            assert!(c >= 0.5 && c <= 1.0);
        }
    }
}

#[test]
fn lerp_places_three_draws_in_a_box() {
    let a = Vec3::lerp(d(-1.0), d(1.0), v(0.0, 0.5, 0.75));
    assert_eq!(bits(a), fbits(-1.0, 0.0, 0.5));
}

#[test]
fn points_in_the_unit_sphere_are_shorter_than_one() {
    let mut nonzero = 0;
    for _ in 0..500 {
        let p = Vec3::random_in_unit_sphere();
        assert!(f(p.squared_length()) < 1.0);
        assert!(p.inside_unit_ball());
        for c in [f(p.x), f(p.y), f(p.z)] {
            assert!(c >= -1.0 && c < 1.0);
        }
        if f(p.squared_length()) > 0.0 {
            nonzero += 1;
        }
    }
    assert!(nonzero > 400);
}

#[test]
fn points_in_the_unit_disk_lie_flat() {
    for _ in 0..500 {
        let p = Vec3::random_in_unit_disk();
        assert_eq!(p.z.to_bits(), 0);
        assert!(f(p.squared_length()) < 1.0);
    }
}

#[test]
fn random_unit_vectors_have_length_one() {
    for _ in 0..500 {
        let p = Vec3::random_unit_vector();
        assert!((f(p.length()) - 1.0).abs() < 1e-12);
    }
}

#[test]
fn the_unit_ball_keeps_what_is_shorter_than_one() {
    assert!(v(0.0, 0.0, 0.0).inside_unit_ball());
    assert!(v(0.5, 0.5, 0.5).inside_unit_ball());
    assert!(!v(1.0, 0.0, 0.0).inside_unit_ball());
    assert!(!v(0.6, 0.6, 0.6).inside_unit_ball());
    assert!(v(f64::NAN, 0.0, 0.0).inside_unit_ball());
}

#[test]
fn sum_adds_from_the_left_onto_zero() {
    assert_eq!(bits(Vec3::sum(&vec![])), [0, 0, 0]);
    let items = vec![v(0.1, 1.0, -1.0), v(0.2, 2.0, 1.0), v(0.3, 4.0, 0.5)];
    assert_eq!(bits(Vec3::sum(&items)), fbits((0.0 + 0.1 + 0.2) + 0.3, 7.0, 0.5));
}
