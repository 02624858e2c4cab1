use pathtrace::fixed::ONE;
use pathtrace::material::{Dielectric, Lambertian, Material, Metalic, SCATTER_EPS};
use pathtrace::ray::{Ray, RayHit};
use pathtrace::rng::{flip_to_hemisphere, unit_vector_from_normals, Sample, UniRngGen};
use pathtrace::sphere::Sphere;
use pathtrace::trace::{background_color, first_hit_in};
use pathtrace::vec3::Vec3;

fn v(x: i64, y: i64, z: i64) -> Vec3 {
    Vec3::new(x, y, z)
}

fn unit_sphere(material: Material) -> Sphere {
    Sphere::new(v(0, 0, 0), ONE, material)
}

fn white_lambertian() -> Material {
    Material::Lambertian(Lambertian::new(v(ONE, ONE, ONE)))
}

fn dot_raw(a: Vec3, b: Vec3) -> i64 {
    a.x * b.x + a.y * b.y + a.z * b.z
}

#[test]
fn at_zero_and_one() {
    let r = Ray::new(v(3 * ONE, -ONE, 7), v(0, ONE, 0));
    assert_eq!(r.at(0), r.origin());
    assert_eq!(r.at(ONE), v(3 * ONE, 0, 7));
    assert_eq!(r.at(ONE / 2), v(3 * ONE, -ONE / 2, 7));
}

#[test]
fn at_moves_along_direction() {
    let r = Ray::new(v(ONE, 2 * ONE, 3 * ONE), v(ONE, 0, -ONE));
    assert_eq!(r.at(2 * ONE), v(3 * ONE, 2 * ONE, ONE));
    assert_eq!(r.at(-ONE), v(0, 2 * ONE, 4 * ONE));
}

#[test]
fn aimed_ray_has_roots_two_radii_apart() {
    let s = Sphere::new(v(0, 0, 0), 2 * ONE, white_lambertian());
    let r = Ray::new(v(0, 0, 5 * ONE), v(0, 0, -ONE));
    let (t0, t1) = s.roots(&r).unwrap();
    assert_eq!(t0, 3 * ONE as i128);
    assert_eq!(t1, 7 * ONE as i128);
    assert_eq!(t1 - t0, 2 * 2 * ONE as i128);
}

#[test]
fn offset_ray_misses() {
    let s = unit_sphere(white_lambertian());
    let r = Ray::new(v(0, 2 * ONE, 5 * ONE), v(0, 0, -ONE));
    assert!(s.roots(&r).is_none());
    assert!(s.hit(&r, 0, i64::MAX, 0).is_none());
}

#[test]
fn zero_direction_never_hits() {
    let s = unit_sphere(white_lambertian());
    let r = Ray::new(v(0, 0, 0), v(0, 0, 0));
    assert!(s.roots(&r).is_none());
    assert!(s.hit(&r, i64::MIN, i64::MAX, 0).is_none());
}

#[test]
fn hit_takes_nearer_root_first() {
    let s = unit_sphere(white_lambertian());
    let r = Ray::new(v(0, 0, 5 * ONE), v(0, 0, -ONE));
    let h = s.hit(&r, 66, i64::MAX, 3).unwrap();
    assert_eq!(h.point(), v(0, 0, ONE));
    assert_eq!(h.normal(), v(0, 0, ONE));
    assert_eq!(h.t, 4 * ONE);
    assert!(h.front_face());
    assert_eq!(h.hitthing(), 3);
}

#[test]
fn hit_falls_back_to_farther_root() {
    let s = unit_sphere(white_lambertian());
    let r = Ray::new(v(0, 0, 5 * ONE), v(0, 0, -ONE));
    let h = s.hit(&r, 5 * ONE, i64::MAX, 0).unwrap();
    assert_eq!(h.point(), v(0, 0, -ONE));
    assert!(!h.front_face());
    assert_eq!(h.normal(), v(0, 0, ONE));
    assert!(s.hit(&r, 7 * ONE, i64::MAX, 0).is_none());
}

#[test]
fn normals_face_the_ray_from_inside() {
    let s = unit_sphere(white_lambertian());
    let r = Ray::new(v(0, 0, 0), v(ONE, ONE, 0));
    let h = s.hit(&r, 66, i64::MAX, 0).unwrap();
    assert!(!h.front_face());
    assert!(dot_raw(r.dir(), h.normal()) <= 0);
}

#[test]
fn negative_radius_turns_normal_inward() {
    let s = Sphere::new(v(0, 0, 0), -ONE, white_lambertian());
    let r = Ray::new(v(0, 0, 5 * ONE), v(0, 0, -ONE));
    let h = s.hit(&r, 66, i64::MAX, 0).unwrap();
    assert!(!h.front_face());
    assert_eq!(h.normal(), v(0, 0, ONE));
    assert!(dot_raw(r.dir(), h.normal()) <= 0);
}

#[test]
fn record_turns_normal_against_ray() {
    let r = Ray::new(v(0, 0, 0), v(0, 0, ONE));
    let h = RayHit::new(v(0, 0, ONE), v(0, 0, ONE), &r, ONE, 0);
    assert!(!h.front_face());
    assert_eq!(h.normal(), v(0, 0, -ONE));
    let h2 = RayHit::new(v(0, 0, ONE), v(0, 0, -ONE), &r, ONE, 0);
    assert!(h2.front_face());
    assert_eq!(h2.normal(), v(0, 0, -ONE));
}

fn hit_up() -> RayHit {
    let r = Ray::new(v(0, 5 * ONE, 0), v(0, -ONE, 0));
    RayHit::new(v(0, 0, 0), v(0, ONE, 0), &r, 5 * ONE, 0)
}

#[test]
fn lambertian_adds_unit_vector() {
    let m = Lambertian::new(v(ONE / 2, ONE / 4, ONE));
    let h = hit_up();
    let (s, att) = m.scatter(&Sample::new(v(ONE, 0, 0), 0), &h).unwrap();
    assert_eq!(s.dir(), v(ONE, ONE, 0));
    assert_eq!(s.origin(), v(0, 0, 0));
    assert_eq!(att, v(ONE / 2, ONE / 4, ONE));
}

#[test]
fn lambertian_degenerate_direction_is_replaced() {
    let m = Lambertian::new(v(ONE, ONE, ONE));
    let h = hit_up();
    let (s, _) = m.scatter(&Sample::new(v(0, -ONE, 0), 0), &h).unwrap();
    assert_eq!(s.dir(), v(SCATTER_EPS, ONE + SCATTER_EPS, SCATTER_EPS));
    let d = s.dir();
    assert!(d.x.abs() > SCATTER_EPS || d.y.abs() > SCATTER_EPS || d.z.abs() > SCATTER_EPS);
}

#[test]
fn metal_fuzz_is_at_least_one() {
    assert_eq!(Metalic::new(v(ONE, ONE, ONE), 100).fuzziness, ONE);
    assert_eq!(Metalic::new(v(ONE, ONE, ONE), 3 * ONE).fuzziness, 3 * ONE);
}

#[test]
fn metal_absorbs_into_surface() {
    let m = Metalic::new(v(ONE, ONE, ONE), 0);
    let r = Ray::new(v(0, 5 * ONE, 0), v(0, -ONE, 0));
    let h = hit_up();
    assert!(m.scatter(&Sample::new(v(0, -ONE, 0), 0), &r, &h).is_none());
    assert!(m.scatter(&Sample::new(v(0, -2 * ONE, 0), 0), &r, &h).is_none());
}

#[test]
fn metal_reflects_off_surface() {
    let m = Metalic::new(v(ONE, ONE / 2, ONE), 0);
    let r = Ray::new(v(0, 5 * ONE, 0), v(0, -ONE, 0));
    let h = hit_up();
    let (s, att) = m.scatter(&Sample::new(v(ONE, 0, 0), 0), &r, &h).unwrap();
    assert_eq!(s.dir(), v(ONE, ONE, 0));
    assert_eq!(att, v(ONE, ONE / 2, ONE));
    assert!(dot_raw(s.dir(), h.normal()) > 0);
}

#[test]
fn matching_medium_does_not_bend_at_normal_incidence() {
    let m = Dielectric::new(ONE, v(ONE, ONE, ONE));
    let r = Ray::new(v(0, 5 * ONE, 0), v(0, -ONE, 0));
    let h = hit_up();
    let (s, att) = m.scatter(&Sample::new(v(0, 0, 0), ONE), &r, &h).unwrap();
    assert_eq!(s.dir(), r.norm_dir());
    assert_eq!(att, v(ONE, ONE, ONE));
}

#[test]
fn matching_medium_barely_bends_at_an_angle() {
    let m = Dielectric::new(ONE, v(ONE, ONE, ONE));
    let r = Ray::new(v(-3 * ONE, 4 * ONE, 0), v(3 * ONE, -4 * ONE, 0));
    let h = hit_up();
    let (s, _) = m.scatter(&Sample::new(v(0, 0, 0), ONE), &r, &h).unwrap();
    let nd = r.norm_dir();
    assert!((s.dir().x - nd.x).abs() <= 4);
    assert!((s.dir().y - nd.y).abs() <= 4);
    assert_eq!(s.dir().z, 0);
}

#[test]
fn dielectric_total_internal_reflection() {
    let m = Dielectric::new(3 * ONE / 2, v(ONE, ONE, ONE));
    let r = Ray::new(v(-ONE, ONE / 4, 0), v(ONE, -ONE / 4, 0));
    let inside = RayHit::new(v(0, 0, 0), v(0, -ONE, 0), &r, ONE, 0);
    assert!(!inside.front_face());
    let (s, _) = m.scatter(&Sample::new(v(0, 0, 0), ONE), &r, &inside).unwrap();
    assert!(s.dir().y > 0);
}

#[test]
fn dielectric_coin_decides_reflection() {
    let m = Dielectric::new(3 * ONE / 2, v(ONE, ONE, ONE));
    let r = Ray::new(v(0, 5 * ONE, 0), v(0, -ONE, 0));
    let h = hit_up();
    // Normal incidence on glass reflects about 4% of the light.
    let (refl, _) = m.scatter(&Sample::new(v(0, 0, 0), 0), &r, &h).unwrap();
    assert_eq!(refl.dir(), v(0, ONE, 0));
    let (thru, _) = m.scatter(&Sample::new(v(0, 0, 0), ONE / 20), &r, &h).unwrap();
    assert_eq!(thru.dir(), v(0, -ONE, 0));
    let (refl2, _) = m.scatter(&Sample::new(v(0, 0, 0), ONE / 30), &r, &h).unwrap();
    assert_eq!(refl2.dir(), v(0, ONE, 0));
}

#[test]
fn depth_zero_is_black() {
    let things = vec![unit_sphere(white_lambertian())];
    let r = Ray::new(v(0, 0, 5 * ONE), v(0, 0, -ONE));
    assert_eq!(r.color(&vec![], &things, 0), v(0, 0, 0));
    let up = Ray::new(v(0, 0, 5 * ONE), v(0, ONE, 0));
    assert_eq!(up.color(&vec![], &things, 0), v(0, 0, 0));
}

#[test]
fn background_zenith_and_nadir() {
    let things: Vec<Sphere> = vec![];
    let draws = vec![Sample::new(v(0, 0, 0), 0)];
    let up = Ray::new(v(0, 0, 0), v(0, ONE, 0));
    assert_eq!(up.color(&draws, &things, 1), v(ONE / 2, 45875, ONE));
    let down = Ray::new(v(0, 0, 0), v(0, -ONE, 0));
    assert_eq!(down.color(&draws, &things, 1), v(ONE, ONE, ONE));
    let level = Ray::new(v(0, 0, 0), v(ONE, 0, 0));
    assert_eq!(background_color(&level), v(49152, 55705, ONE));
}

#[test]
fn one_bounce_off_white_sphere() {
    let things = vec![unit_sphere(white_lambertian())];
    let r = Ray::new(v(0, 0, 5 * ONE), v(0, 0, -ONE));
    let draws = vec![Sample::new(v(0, 0, 0), 0), Sample::new(v(0, ONE, 0), 0)];
    let c = r.color(&draws, &things, 2);
    let direct = background_color(&r);
    let bounced = Ray::new(v(0, 0, ONE), v(0, ONE, ONE));
    assert_eq!(c, background_color(&bounced));
    assert_ne!(c, v(0, 0, 0));
    assert!(c.x > 0 && c.x < direct.x);
    assert!(c.y > 0 && c.y < direct.y);
    assert!(c.z > 0 && c.z <= direct.z);
}

#[test]
fn albedo_attenuates_each_bounce() {
    let grey = Material::Lambertian(Lambertian::new(v(ONE / 2, ONE / 2, ONE / 2)));
    let things = vec![unit_sphere(grey)];
    let r = Ray::new(v(0, 0, 5 * ONE), v(0, 0, -ONE));
    let draws = vec![Sample::new(v(0, 0, 0), 0), Sample::new(v(0, ONE, 0), 0)];
    let c = r.color(&draws, &things, 2);
    let bounced = Ray::new(v(0, 0, ONE), v(0, ONE, ONE));
    let bg = background_color(&bounced);
    assert_eq!(c, v(bg.x / 2, bg.y / 2, bg.z / 2));
    assert_eq!(r.color(&draws, &things, 1), v(0, 0, 0));
}

#[test]
fn absorbed_light_is_black() {
    let metal = Material::Metalic(Metalic::new(v(ONE, ONE, ONE), 0));
    let things = vec![unit_sphere(metal)];
    let r = Ray::new(v(0, 0, 5 * ONE), v(0, 0, -ONE));
    let draws = vec![Sample::new(v(0, 0, -2 * ONE), 0)];
    assert_eq!(r.color(&draws, &things, 1), v(0, 0, 0));
}

#[test]
fn first_surface_in_list_wins() {
    let far = Sphere::new(v(0, 0, -3 * ONE), ONE, white_lambertian());
    let near = unit_sphere(white_lambertian());
    let things = vec![far, near];
    let r = Ray::new(v(0, 0, 5 * ONE), v(0, 0, -ONE));
    let h = first_hit_in(&things, &r).unwrap();
    assert_eq!(h.hitthing(), 0);
    assert_eq!(h.point(), v(0, 0, -2 * ONE));
    let none = first_hit_in(&vec![], &r);
    assert!(none.is_none());
}

#[test]
fn normal_draws_become_unit_vectors() {
    assert_eq!(unit_vector_from_normals(3, 4, 0), v(39321, 52428, 0));
    assert_eq!(unit_vector_from_normals(0, 0, -7 * ONE), v(0, 0, -ONE));
    assert_eq!(unit_vector_from_normals(0, 0, 0), v(0, 0, 0));
}

#[test]
fn hemisphere_flip() {
    let n = v(0, ONE, 0);
    assert_eq!(flip_to_hemisphere(v(ONE, ONE, 0), n), v(ONE, ONE, 0));
    assert_eq!(flip_to_hemisphere(v(ONE, -ONE, 0), n), v(-ONE, ONE, 0));
}

#[test]
fn uniform_draws_stay_in_unit_range() {
    let mut g = UniRngGen::new(0x5eed);
    let mut distinct = false;
    let first = g.gen();
    for _ in 0..1000 {
        let x = g.gen();
        assert!(x >= 0 && x <= ONE);
        if x != first {
            distinct = true;
        }
    }
    assert!(distinct);
}

#[test]
fn vectors_saturate_at_limit() {
    let big = v(i64::MAX, i64::MIN, 5);
    assert_eq!(big, v(pathtrace::fixed::LIMIT, -pathtrace::fixed::LIMIT, 5));
    assert_eq!(big.add(big).x, pathtrace::fixed::LIMIT);
}

#[test]
fn metal_exact_fuzziness_is_kept() {
    let m = Metalic::with_exact_fuzziness(v(ONE, ONE, ONE), 0);
    assert_eq!(m.fuzziness, 0);
    let r = Ray::new(v(-ONE, ONE, 0), v(ONE, -ONE, 0));
    let h = hit_up();
    let (s, _) = m.scatter(&Sample::new(v(0, -ONE, 0), 0), &r, &h).unwrap();
    assert_eq!(s.dir(), v(46341, 46341, 0));
}

#[test]
fn same_seed_same_stream() {
    let mut a = UniRngGen::new(42);
    let mut b = UniRngGen::new(42);
    for _ in 0..100 {
        assert_eq!(a.gen(), b.gen());
    }
}

#[test]
fn normal_draws_give_unit_length_up_to_rounding() {
    for &(x, y, z) in &[(3, 4, 0), (ONE, -2 * ONE, ONE / 3), (-7, 1, 12345), (ONE / 10, 0, -ONE / 10)] {
        let u = unit_vector_from_normals(x, y, z);
        let len2 = dot_raw(u, u);
        assert!(len2 <= ONE * ONE + 4 * ONE, "{:?}", u);
        let p = (u.x.abs() + 1).pow(2) + (u.y.abs() + 1).pow(2) + (u.z.abs() + 1).pow(2);
        assert!(p > ONE * ONE, "{:?}", u);
    }
}
