//! What the radiance recursion asks of a surface.
use vstd::prelude::*;
use crate::material::Material;
use crate::ray::{Ray, RayHit};
use crate::vec3::dot_raw;

verus! {

/// A surface that rays can meet: it reports where, and what it is made of.
pub trait Hittable {
    /// The surface's own well-formedness.
    spec fn inv(&self) -> bool;

    /// A hit with parameter in `[min, max]`, naming the surface by `id`; its
    /// normal faces against the ray.
    fn hit(&self, r: &Ray, min: i64, max: i64, id: usize) -> (h: Option<RayHit>)
        requires
            self.inv(),
            r.wf(),
        ensures
            h matches Some(rec) ==> rec.wf() && rec.hitthing == id && rec.t >= min && rec.t
                <= max && dot_raw(r.dir, rec.normal) <= 0,
    ;

    fn get_material(&self) -> (m: &Material)
        requires
            self.inv(),
        ensures
            m.wf(),
    ;
}

} // verus!
