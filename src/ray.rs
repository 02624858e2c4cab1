//! Rays and the records of their intersections with surfaces.
use vstd::prelude::*;
use crate::fixed::{fx_mul, ONE};
use crate::vec3::{dot_raw, lemma_dot_neg, vnormalize, vneg, vscale, vsum, Vec3};

verus! {

/// A half-line: an origin, a direction and that direction at unit length.
#[derive(Clone, Copy, Debug)]
pub struct Ray {
    pub origin: Vec3,
    pub dir: Vec3,
    pub norm_dir: Vec3,
}

/// The ray from `o` along `d`.
pub open spec fn ray_from(o: Vec3, d: Vec3) -> Ray {
    Ray { origin: o, dir: d, norm_dir: vnormalize(d) }
}

/// The point `origin + t * dir`.
pub open spec fn ray_at(r: Ray, t: int) -> Vec3 {
    vsum(r.origin, vscale(t, r.dir))
}

/// At parameter 0 a ray is at its origin, and at parameter 1 it is one
/// direction further.
pub proof fn lemma_at_endpoints(r: Ray)
    requires
        r.wf(),
    ensures
        ray_at(r, 0) == r.origin,
        ray_at(r, ONE as int) == vsum(r.origin, r.dir),
{
    lemma_scale_one(r.dir.x as int);
    lemma_scale_one(r.dir.y as int);
    lemma_scale_one(r.dir.z as int);
    assert(vscale(ONE as int, r.dir) == r.dir);
    assert(vscale(0, r.dir) == Vec3 { x: 0, y: 0, z: 0 });
}

proof fn lemma_scale_one(v: int)
    ensures
        fx_mul(ONE as int, v) == v,
        fx_mul(0, v) == 0,
{
    if v >= 0 {
        vstd::arithmetic::div_mod::lemma_div_by_multiple(v, ONE as int);
        assert(ONE * v == v * ONE) by (nonlinear_arith);
    } else {
        vstd::arithmetic::div_mod::lemma_div_by_multiple(-v, ONE as int);
        assert(-(ONE * v) == (-v) * ONE) by (nonlinear_arith);
    }
}

impl Ray {
    /// Components are in range and `norm_dir` is `dir` normalized.
    pub open spec fn wf(self) -> bool {
        self.origin.wf() && self.dir.wf() && self.norm_dir.wf() && self.norm_dir == vnormalize(
            self.dir,
        )
    }

    pub fn new(o: Vec3, d: Vec3) -> (r: Ray)
        requires
            o.wf(),
            d.wf(),
        ensures
            r == ray_from(o, d),
            r.wf(),
    {
        Ray { origin: o, dir: d, norm_dir: d.normalize_or_zero() }
    }

    /// The point at parameter `t` (a fixed-point scalar) along the ray.
    pub fn at(&self, t: i64) -> (r: Vec3)
        requires
            self.wf(),
        ensures
            r == ray_at(*self, t as int),
            r.wf(),
    {
        self.origin.add(self.dir.scale(t))
    }

    pub fn origin(&self) -> (r: Vec3)
        ensures
            r == self.origin,
    {
        self.origin
    }

    pub fn dir(&self) -> (r: Vec3)
        ensures
            r == self.dir,
    {
        self.dir
    }

    pub fn norm_dir(&self) -> (r: Vec3)
        ensures
            r == self.norm_dir,
    {
        self.norm_dir
    }
}

/// Where a ray met a surface. `hitthing` is the index of that surface in the
/// collection that was searched.
#[derive(Clone, Copy, Debug)]
pub struct RayHit {
    pub point: Vec3,
    pub normal: Vec3,
    pub t: i64,
    pub front_face: bool,
    pub hitthing: usize,
}

/// The record for an outward normal `normal`: the stored normal is turned to
/// face against the ray's direction, and `front_face` says whether it already did.
pub open spec fn make_hit(point: Vec3, normal: Vec3, r: Ray, t: int, hitthing: int) -> RayHit {
    let facing = dot_raw(r.dir, normal) < 0;
    RayHit {
        point,
        normal: if facing { normal } else { vneg(normal) },
        t: t as i64,
        front_face: facing,
        hitthing: hitthing as usize,
    }
}

/// Every record faces against the ray that produced it: the direction and
/// the stored normal never point the same way.
pub proof fn lemma_hit_faces_ray(point: Vec3, normal: Vec3, r: Ray, t: int, hitthing: int)
    requires
        normal.wf(),
    ensures
        dot_raw(r.dir, make_hit(point, normal, r, t, hitthing).normal) <= 0,
{
    lemma_dot_neg(r.dir, normal);
}

impl RayHit {
    pub open spec fn wf(self) -> bool {
        self.point.wf() && self.normal.wf()
    }

    pub fn new(point: Vec3, normal: Vec3, r: &Ray, t: i64, hitthing: usize) -> (h: RayHit)
        requires
            point.wf(),
            normal.wf(),
            r.wf(),
        ensures
            h == make_hit(point, normal, *r, t as int, hitthing as int),
            h.wf(),
            dot_raw(r.dir, h.normal) <= 0,
    {
        proof {
            lemma_hit_faces_ray(point, normal, *r, t as int, hitthing as int);
        }
        let facing = r.dir.dot_raw(normal) < 0;
        let faced_normal = if facing {
            normal
        } else {
            normal.neg()
        };
        RayHit { point, normal: faced_normal, t, front_face: facing, hitthing }
    }

    pub fn normal(&self) -> (r: Vec3)
        ensures
            r == self.normal,
    {
        self.normal
    }

    pub fn point(&self) -> (r: Vec3)
        ensures
            r == self.point,
    {
        self.point
    }

    /// The index of the surface that was hit.
    pub fn hitthing(&self) -> (r: usize)
        ensures
            r == self.hitthing,
    {
        self.hitthing
    }

    pub fn front_face(&self) -> (r: bool)
        ensures
            r == self.front_face,
    {
        self.front_face
    }
}

} // verus!
