//! Spheres and where rays meet them.
use vstd::prelude::*;
use crate::fixed::{abs_int, div_trunc, is_isqrt, isqrt, isqrt_u128, lemma_isqrt_unique, sat, saturate, tdiv, LIMIT, ONE};
use crate::hittable::Hittable;
use crate::material::Material;
use crate::ray::{make_hit, ray_at, Ray, RayHit};
use crate::vec3::{dot_raw, lemma_mul_bound, vdiff, vneg, vnormalize, Vec3};

verus! {

/// A sphere. A negative radius turns its normals inward, which models a
/// hollow shell such as the inside of a glass bubble.
#[derive(Clone, Copy, Debug)]
pub struct Sphere {
    pub origin: Vec3,
    pub radius: i64,
    pub material: Material,
}

/// The two parameters, nearer first, at which the ray's line meets the
/// sphere, from the quadratic `a t^2 + 2 b t + c = 0` with `a = d.d`,
/// `b = d.(O - C)` and `c = (O - C).(O - C) - r^2`. `None` when the
/// discriminant `b^2 - a c` is negative or the direction is zero.
pub open spec fn sphere_roots(s: Sphere, r: Ray) -> Option<(int, int)> {
    let oc = vdiff(r.origin, s.origin);
    let a = dot_raw(r.dir, r.dir);
    let b = dot_raw(oc, r.dir);
    let c = dot_raw(oc, oc) - s.radius * s.radius;
    let disc = b * b - a * c;
    if a == 0 || disc < 0 {
        None
    } else {
        let sq = isqrt(disc);
        Some((tdiv((-b - sq) * ONE, a), tdiv((-b + sq) * ONE, a)))
    }
}

/// The outward normal at `p`: toward `p` from the center, reversed for a
/// negative radius.
pub open spec fn outward_normal(s: Sphere, p: Vec3) -> Vec3 {
    let n = vnormalize(vdiff(p, s.origin));
    if s.radius < 0 {
        vneg(n)
    } else {
        n
    }
}

pub open spec fn hit_at(s: Sphere, r: Ray, t: int, id: int) -> RayHit {
    let p = ray_at(r, t);
    make_hit(p, outward_normal(s, p), r, t, id)
}

/// The nearer root in `[min, max]`, else the farther one, else no hit.
pub open spec fn sphere_hit(s: Sphere, r: Ray, min: int, max: int, id: int) -> Option<RayHit> {
    match sphere_roots(s, r) {
        None => None,
        Some((t0, t1)) => if min <= t0 <= max {
            Some(hit_at(s, r, t0, id))
        } else if min <= t1 <= max {
            Some(hit_at(s, r, t1, id))
        } else {
            None
        },
    }
}

impl Sphere {
    pub open spec fn wf(self) -> bool {
        self.origin.wf() && -LIMIT <= self.radius <= LIMIT && self.material.wf()
    }

    /// The radius saturates into the component range.
    pub fn new(origin: Vec3, radius: i64, material: Material) -> (s: Sphere)
        requires
            origin.wf(),
            material.wf(),
        ensures
            s.origin == origin,
            s.radius == sat(radius as int),
            s.material == material,
            s.wf(),
    {
        Sphere { origin, radius: saturate(radius as i128), material }
    }

    pub fn origin(&self) -> (r: Vec3)
        ensures
            r == self.origin,
    {
        self.origin
    }

    pub fn radius(&self) -> (r: i64)
        ensures
            r == self.radius,
    {
        self.radius
    }

    pub fn get_material(&self) -> (r: &Material)
        ensures
            *r == self.material,
    {
        &self.material
    }

    /// Both parameters at which the ray's line meets the sphere.
    pub fn roots(&self, r: &Ray) -> (res: Option<(i128, i128)>)
        requires
            self.wf(),
            r.wf(),
        ensures
            res matches Some(p) ==> sphere_roots(*self, *r) == Some((p.0 as int, p.1 as int)),
            res is None ==> sphere_roots(*self, *r) is None,
    {
        let oc = r.origin.sub(self.origin);
        let a = r.dir.length_squared_raw();
        let b = oc.dot_raw(r.dir);
        proof {
            lemma_mul_bound(self.radius as int, self.radius as int, LIMIT as int, LIMIT as int);
        }
        let c = oc.length_squared_raw() - self.radius * self.radius;
        proof {
            lemma_mul_bound(b as int, b as int, 3 * LIMIT * LIMIT, 3 * LIMIT * LIMIT);
            lemma_mul_bound(a as int, c as int, 3 * LIMIT * LIMIT, 4 * LIMIT * LIMIT);
        }
        let disc: i128 = (b as i128) * (b as i128) - (a as i128) * (c as i128);
        if a == 0 || disc < 0 {
            return None;
        }
        let sqrtd = isqrt_u128(disc as u128);
        let sq = sqrtd as i128;
        assert(0 <= sq < 0x100_0000_0000_0000);
        assert(-0x200_0000_0000_0000 <= -(b as i128) - sq <= 0x200_0000_0000_0000);
        assert(-0x200_0000_0000_0000 <= -(b as i128) + sq <= 0x200_0000_0000_0000);
        let t0 = div_trunc((-(b as i128) - sq) * (ONE as i128), a as i128);
        let t1 = div_trunc((-(b as i128) + sq) * (ONE as i128), a as i128);
        Some((t0, t1))
    }

    /// The first intersection with parameter in `[min, max]`, nearer root first.
    /// The record names the sphere by `id`.
    pub fn hit(&self, r: &Ray, min: i64, max: i64, id: usize) -> (h: Option<RayHit>)
        requires
            self.wf(),
            r.wf(),
        ensures
            h == sphere_hit(*self, *r, min as int, max as int, id as int),
            h matches Some(rec) ==> rec.wf() && rec.hitthing == id && rec.t >= min && rec.t <= max
                && dot_raw(r.dir, rec.normal) <= 0,
    {
        match self.roots(r) {
            None => None,
            Some((t0, t1)) => {
                if min as i128 <= t0 && t0 <= max as i128 {
                    Some(self.record_at(r, t0 as i64, id))
                } else if min as i128 <= t1 && t1 <= max as i128 {
                    Some(self.record_at(r, t1 as i64, id))
                } else {
                    None
                }
            },
        }
    }

    fn record_at(&self, r: &Ray, t: i64, id: usize) -> (h: RayHit)
        requires
            self.wf(),
            r.wf(),
        ensures
            h == hit_at(*self, *r, t as int, id as int),
            h.wf(),
            h.hitthing == id,
            h.t == t,
            dot_raw(r.dir, h.normal) <= 0,
    {
        let p = r.at(t);
        let n = p.sub(self.origin).normalize_or_zero();
        let normal = if self.radius < 0 {
            n.neg()
        } else {
            n
        };
        RayHit::new(p, normal, r, t, id)
    }
}

} // verus!

verus! {

proof fn lemma_component(p: int, q: int, o: int, k: int)
    requires
        p * o == -k * q,
    ensures
        (p * q) * o == -k * (q * q),
        (p * p) * (o * o) == (k * k) * (q * q),
{
    assert((p * q) * o == -k * (q * q)) by (nonlinear_arith)
        requires
            p * o == -k * q,
    ;
    assert((p * p) * (o * o) == (k * k) * (q * q)) by (nonlinear_arith)
        requires
            p * o == -k * q,
    ;
}

proof fn lemma_distribute(x: int, y: int, z: int, m: int)
    ensures
        (x + y + z) * m == x * m + y * m + z * m,
        m * (x + y + z) == x * m + y * m + z * m,
{
    assert((x + y + z) * m == x * m + y * m + z * m) by (nonlinear_arith);
    assert(m * (x + y + z) == x * m + y * m + z * m) by (nonlinear_arith);
}

impl Hittable for Sphere {
    open spec fn inv(&self) -> bool {
        self.wf()
    }

    fn hit(&self, r: &Ray, min: i64, max: i64, id: usize) -> (h: Option<RayHit>) {
        Sphere::hit(self, r, min, max, id)
    }

    fn get_material(&self) -> (m: &Material) {
        Sphere::get_material(self)
    }
}

/// A ray with a direction of unit length, aimed at the center of a sphere
/// from a distance `k` outside it, meets the sphere at `k - |radius|` and
/// `k + |radius|`: two roots exactly `2 |radius|` apart.
pub proof fn lemma_aimed_at_center(s: Sphere, r: Ray, k: int)
    requires
        s.wf(),
        r.wf(),
        dot_raw(r.dir, r.dir) == ONE * ONE,
        k > abs_int(s.radius as int),
        vdiff(r.origin, s.origin).x * ONE == -k * r.dir.x,
        vdiff(r.origin, s.origin).y * ONE == -k * r.dir.y,
        vdiff(r.origin, s.origin).z * ONE == -k * r.dir.z,
    ensures
        sphere_roots(s, r) == Some((k - abs_int(s.radius as int), k + abs_int(s.radius as int))),
{
    let oc = vdiff(r.origin, s.origin);
    let d = r.dir;
    let rho = abs_int(s.radius as int);
    let o = ONE as int;
    let b = dot_raw(oc, d);
    lemma_component(oc.x as int, d.x as int, o, k);
    lemma_component(oc.y as int, d.y as int, o, k);
    lemma_component(oc.z as int, d.z as int, o, k);
    lemma_distribute(oc.x * d.x, oc.y * d.y, oc.z * d.z, o);
    lemma_distribute(d.x * d.x, d.y * d.y, d.z * d.z, -k);
    assert(b * o == -k * (o * o));
    assert(b == -k * o) by (nonlinear_arith)
        requires
            b * o == -k * (o * o),
            o > 0,
    ;
    let cc = dot_raw(oc, oc);
    lemma_distribute(oc.x * oc.x, oc.y * oc.y, oc.z * oc.z, o * o);
    lemma_distribute(d.x * d.x, d.y * d.y, d.z * d.z, k * k);
    assert(cc * (o * o) == (k * k) * (d.x * d.x) + (k * k) * (d.y * d.y) + (k * k) * (d.z * d.z));
    assert((d.x * d.x + d.y * d.y + d.z * d.z) * (k * k) == (o * o) * (k * k));
    assert((o * o) * (k * k) == k * k * (o * o)) by (nonlinear_arith);
    assert((k * k) * (d.x * d.x) == (d.x * d.x) * (k * k)) by (nonlinear_arith);
    assert((k * k) * (d.y * d.y) == (d.y * d.y) * (k * k)) by (nonlinear_arith);
    assert((k * k) * (d.z * d.z) == (d.z * d.z) * (k * k)) by (nonlinear_arith);
    assert(cc * (o * o) == k * k * (o * o));
    assert(cc == k * k) by (nonlinear_arith)
        requires
            cc * (o * o) == k * k * (o * o),
            o > 0,
    ;
    let c = cc - s.radius * s.radius;
    assert(s.radius * s.radius == rho * rho) by (nonlinear_arith)
        requires
            rho == abs_int(s.radius as int),
    ;
    let disc = b * b - (o * o) * c;
    assert(disc == (o * rho) * (o * rho)) by (nonlinear_arith)
        requires
            b == -k * o,
            c == k * k - rho * rho,
            disc == b * b - (o * o) * c,
    ;
    assert(is_isqrt(disc, o * rho)) by (nonlinear_arith)
        requires
            disc == (o * rho) * (o * rho),
            o > 0,
            rho >= 0,
    ;
    lemma_isqrt_unique(disc, o * rho);
    assert((-b - o * rho) * o == (k - rho) * (o * o)) by (nonlinear_arith)
        requires
            b == -k * o,
    ;
    assert((-b + o * rho) * o == (k + rho) * (o * o)) by (nonlinear_arith)
        requires
            b == -k * o,
    ;
    vstd::arithmetic::div_mod::lemma_div_by_multiple(k - rho, o * o);
    vstd::arithmetic::div_mod::lemma_div_by_multiple(k + rho, o * o);
}

/// A ray whose line passes the center farther than the radius (the squared
/// offset `|O - C|^2 - b^2 / a` exceeds `radius^2`, here multiplied through by
/// `a = d.d`) meets the sphere nowhere.
pub proof fn lemma_offset_miss(s: Sphere, r: Ray, min: int, max: int, id: int)
    requires
        dot_raw(r.dir, r.dir) > 0,
        dot_raw(vdiff(r.origin, s.origin), vdiff(r.origin, s.origin)) * dot_raw(r.dir, r.dir)
            - dot_raw(vdiff(r.origin, s.origin), r.dir) * dot_raw(vdiff(r.origin, s.origin), r.dir)
            > s.radius * s.radius * dot_raw(r.dir, r.dir),
    ensures
        sphere_roots(s, r) is None,
        sphere_hit(s, r, min, max, id) is None,
{
    let oc = vdiff(r.origin, s.origin);
    let a = dot_raw(r.dir, r.dir);
    let b = dot_raw(oc, r.dir);
    let c = dot_raw(oc, oc) - s.radius * s.radius;
    assert(b * b - a * c < 0) by (nonlinear_arith)
        requires
            c == dot_raw(oc, oc) - s.radius * s.radius,
            dot_raw(oc, oc) * a - b * b > s.radius * s.radius * a,
    ;
}

} // verus!
