//! The radiance recursion: follow a ray through scattering bounces.
use vstd::prelude::*;
use crate::fixed::{div_trunc, tdiv, ONE};
use crate::ray::{Ray, RayHit};
use crate::rng::Sample;
use crate::sphere::{sphere_hit, Sphere};
use crate::vec3::{vmul, vscale, vsum, Vec3};

verus! {

/// Hits nearer than this parameter (0.001) are ignored, so that a scattered
/// ray does not meet the surface it leaves.
pub const HIT_MIN: i64 = 66;

/// Hits are searched up to this parameter.
pub const HIT_MAX: i64 = 0x7fff_ffff_ffff_ffff;

pub open spec fn black() -> Vec3 {
    Vec3 { x: 0, y: 0, z: 0 }
}

pub open spec fn white() -> Vec3 {
    Vec3 { x: ONE, y: ONE, z: ONE }
}

/// The zenith color of the sky, (0.5, 0.7, 1.0).
pub open spec fn sky() -> Vec3 {
    Vec3 { x: 32768, y: 45875, z: ONE }
}

/// The environment seen by a ray that hits nothing: white at the bottom,
/// sky blue at the top, blended by `t = (y + 1) / 2` of the unit direction.
pub open spec fn background(r: Ray) -> Vec3 {
    let t = tdiv(r.norm_dir.y + ONE, 2);
    vsum(vscale(ONE - t, white()), vscale(t, sky()))
}

/// The first surface, from index `i` on in collection order, that the ray
/// hits in `[HIT_MIN, HIT_MAX]`; later surfaces are not consulted even if nearer.
pub open spec fn first_hit(things: Seq<Sphere>, r: Ray, i: nat) -> Option<RayHit>
    decreases things.len() - i,
{
    if i >= things.len() {
        None
    } else {
        match sphere_hit(things[i as int], r, HIT_MIN as int, HIT_MAX as int, i as int) {
            Some(h) => Some(h),
            None => first_hit(things, r, i + 1),
        }
    }
}

/// The color carried back along `r` with `depth` bounces left; the bounce
/// with `k` bounces left uses `draws[k - 1]`. Black when the budget is spent
/// or the light is absorbed, the background when nothing is hit, and else
/// the attenuation times the color of the scattered ray.
pub open spec fn trace(r: Ray, draws: Seq<Sample>, things: Seq<Sphere>, depth: nat) -> Vec3
    decreases depth,
{
    if depth == 0 {
        black()
    } else {
        match first_hit(things, r, 0) {
            None => background(r),
            Some(h) => match things[h.hitthing as int].material.scatter_spec(
                draws[depth - 1],
                r,
                h,
            ) {
                None => black(),
                Some((s, att)) => vmul(att, trace(s, draws, things, (depth - 1) as nat)),
            },
        }
    }
}

pub open spec fn all_wf(things: Seq<Sphere>) -> bool {
    forall|i: int| 0 <= i < things.len() ==> #[trigger] things[i].wf()
}

pub open spec fn draws_wf(draws: Seq<Sample>) -> bool {
    forall|i: int| 0 <= i < draws.len() ==> #[trigger] draws[i].wf()
}

/// The background color for a ray that hits nothing.
pub fn background_color(r: &Ray) -> (c: Vec3)
    requires
        r.wf(),
    ensures
        c == background(*r),
        c.wf(),
{
    let t = div_trunc(r.norm_dir.y as i128 + ONE as i128, 2) as i64;
    Vec3::one().scale(ONE - t).add(Vec3 { x: 32768, y: 45875, z: ONE }.scale(t))
}

/// Scans the surfaces in order and returns the first hit.
pub fn first_hit_in(things: &Vec<Sphere>, r: &Ray) -> (h: Option<RayHit>)
    requires
        all_wf(things@),
        r.wf(),
    ensures
        h == first_hit(things@, *r, 0),
        h matches Some(rec) ==> rec.wf() && rec.hitthing < things@.len(),
{
    let mut i: usize = 0;
    while i < things.len()
        invariant
            0 <= i <= things@.len(),
            all_wf(things@),
            r.wf(),
            first_hit(things@, *r, 0) == first_hit(things@, *r, i as nat),
        decreases things@.len() - i,
    {
        let h = things[i].hit(r, HIT_MIN, HIT_MAX, i);
        if h.is_some() {
            return h;
        }
        i += 1;
    }
    None
}

impl Ray {
    /// The color this ray carries back with `depth` bounces left, drawing
    /// the randomness of the bounce with `k` bounces left from `draws[k - 1]`.
    pub fn color(&self, draws: &Vec<Sample>, things: &Vec<Sphere>, depth: u64) -> (c: Vec3)
        requires
            self.wf(),
            depth <= draws@.len(),
            draws_wf(draws@),
            all_wf(things@),
        ensures
            c == trace(*self, draws@, things@, depth as nat),
            depth == 0 ==> c == black(),
            c.wf(),
        decreases depth,
    {
        if depth == 0 {
            return Vec3::zero();
        }
        match first_hit_in(things, self) {
            None => background_color(self),
            Some(h) => {
                assert(things@[h.hitthing as int].wf());
                let m = things[h.hitthing].get_material();
                let n: usize = draws.len();
                let k = (depth - 1) as usize;
                assert(k < n && draws@[k as int].wf());
                match m.scatter(&draws[k], self, &h) {
                    Some((scattered, attenuation)) => attenuation.mul(
                        scattered.color(draws, things, depth - 1),
                    ),
                    None => Vec3::zero(),
                }
            },
        }
    }
}

} // verus!
