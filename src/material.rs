//! How light leaves a surface: diffuse, fuzzy metal and glass.
use vstd::prelude::*;
use crate::fixed::{abs_int, div_trunc, fx_mul, isqrt, isqrt_u128, lemma_tdiv_bound, lemma_tdiv_le, tdiv, LIMIT, ONE};
use crate::ray::{ray_from, Ray, RayHit};
use crate::rng::Sample;
use crate::vec3::{dot, dot_raw, near_zero, vdiff, vneg, vscale, vsum, Vec3};

verus! {

/// Below this magnitude in every component a diffuse direction is degenerate.
pub const SCATTER_EPS: i64 = 4;

/// A scattered ray and the attenuation it carries.
pub type Scatter = Option<(Ray, Vec3)>;

/// `v` mirrored about the plane with normal `n`: `v - 2 (v . n) n`.
pub open spec fn reflect(v: Vec3, n: Vec3) -> Vec3 {
    vdiff(v, vscale(2 * dot(v, n), n))
}

/// Snell's law for a unit `v` meeting the unit normal `n` at cosine
/// `cos_theta`, with `ratio` the quotient of the refractive indices.
pub open spec fn refract(v: Vec3, n: Vec3, cos_theta: int, ratio: int) -> Vec3 {
    let perp = vscale(ratio, vsum(v, vscale(cos_theta, n)));
    let k = isqrt(abs_int(ONE * ONE - dot_raw(perp, perp)));
    vsum(perp, vscale(-k, n))
}

/// Schlick's approximation of the reflectance at cosine `cos_theta`.
pub open spec fn reflectance(cos_theta: int, ior: int) -> int {
    let q = tdiv((ONE - ior) * ONE, ONE + ior);
    let r0 = fx_mul(q, q);
    let x = ONE - cos_theta;
    r0 + fx_mul(ONE - r0, tdiv(x * x * x * x * x, ONE * ONE * ONE * ONE))
}

/// The diffuse direction: the normal plus a random unit vector, replaced by
/// the normal offset by the epsilon when that sum is degenerate.
pub open spec fn lambertian_dir(normal: Vec3, unit: Vec3) -> Vec3 {
    let d = vsum(normal, unit);
    if near_zero(d, SCATTER_EPS as int) {
        vsum(normal, Vec3 { x: SCATTER_EPS, y: SCATTER_EPS, z: SCATTER_EPS })
    } else {
        d
    }
}

/// Against a normal that is not itself within twice the epsilon of zero (a
/// unit normal never is), the diffuse direction is never within the epsilon
/// of zero.
pub proof fn lemma_lambertian_not_degenerate(normal: Vec3, unit: Vec3)
    requires
        normal.wf(),
        unit.wf(),
        !near_zero(normal, 2 * SCATTER_EPS),
    ensures
        !near_zero(lambertian_dir(normal, unit), SCATTER_EPS as int),
{
}

/// A diffuse surface of color `albedo`.
#[derive(Clone, Copy, Debug)]
pub struct Lambertian {
    pub albedo: Vec3,
}

impl Lambertian {
    pub open spec fn wf(self) -> bool {
        self.albedo.wf()
    }

    pub open spec fn scatter_spec(self, draw: Sample, hit: RayHit) -> Scatter {
        Some((ray_from(hit.point, lambertian_dir(hit.normal, draw.unit)), self.albedo))
    }

    pub fn new(albedo: Vec3) -> (r: Lambertian)
        ensures
            r.albedo == albedo,
    {
        Lambertian { albedo }
    }

    /// Always scatters, toward the normal plus the drawn unit vector.
    pub fn scatter(&self, draw: &Sample, hit: &RayHit) -> (r: Scatter)
        requires
            self.wf(),
            draw.wf(),
            hit.wf(),
        ensures
            r == self.scatter_spec(*draw, *hit),
            r.is_some(),
            !near_zero(r.unwrap().0.dir, SCATTER_EPS as int) || near_zero(hit.normal, 2 * SCATTER_EPS),
    {
        let mut dir = hit.normal.add(draw.unit);
        if dir.near_zero(SCATTER_EPS) {
            dir = hit.normal.add(Vec3 { x: SCATTER_EPS, y: SCATTER_EPS, z: SCATTER_EPS });
        }
        Some((Ray::new(hit.point, dir), self.albedo))
    }
}

/// A reflective surface; `fuzziness` scales the random offset of the mirror
/// direction.
#[derive(Clone, Copy, Debug)]
pub struct Metalic {
    pub albedo: Vec3,
    pub fuzziness: i64,
}

/// The fuzzed mirror direction.
pub open spec fn metal_dir(m: Metalic, draw: Sample, r: Ray, hit: RayHit) -> Vec3 {
    vsum(reflect(r.norm_dir, hit.normal), vscale(m.fuzziness as int, draw.unit))
}

impl Metalic {
    pub open spec fn wf(self) -> bool {
        self.albedo.wf()
    }

    pub open spec fn scatter_spec(self, draw: Sample, r: Ray, hit: RayHit) -> Scatter {
        let d = metal_dir(self, draw, r, hit);
        if dot_raw(d, hit.normal) > 0 {
            Some((ray_from(hit.point, d), self.albedo))
        } else {
            None
        }
    }

    /// The fuzziness is raised to at least `ONE`, so that every metal built
    /// this way is at least as rough as a unit of offset.
    pub fn new(albedo: Vec3, fuzziness: i64) -> (r: Metalic)
        ensures
            r.albedo == albedo,
            r.fuzziness == if fuzziness > ONE { fuzziness } else { ONE },
    {
        let f = if fuzziness > ONE {
            fuzziness
        } else {
            ONE
        };
        Metalic { albedo, fuzziness: f }
    }

    /// Keeps the fuzziness as given, for scenes that want a sharper mirror
    /// than [`Metalic::new`] allows.
    pub fn with_exact_fuzziness(albedo: Vec3, fuzziness: i64) -> (r: Metalic)
        ensures
            r.albedo == albedo,
            r.fuzziness == fuzziness,
    {
        Metalic { albedo, fuzziness }
    }

    /// Scatters exactly when the fuzzed mirror direction leaves the surface.
    pub fn scatter(&self, draw: &Sample, r: &Ray, hit: &RayHit) -> (s: Scatter)
        requires
            self.wf(),
            draw.wf(),
            r.wf(),
            hit.wf(),
        ensures
            s == self.scatter_spec(*draw, *r, *hit),
            s.is_none() <==> dot_raw(metal_dir(*self, *draw, *r, *hit), hit.normal) <= 0,
    {
        let reflected = reflect_vector(r.norm_dir, hit.normal);
        let d = reflected.add(draw.unit.scale(self.fuzziness));
        if d.dot_raw(hit.normal) > 0 {
            return Some((Ray::new(hit.point, d), self.albedo));
        }
        None
    }
}

fn reflect_vector(v: Vec3, n: Vec3) -> (r: Vec3)
    requires
        v.wf(),
        n.wf(),
    ensures
        r == reflect(v, n),
        r.wf(),
{
    let d = v.dot(n);
    v.sub(n.scale(2 * d))
}

} // verus!

verus! {

/// An index of refraction the library accepts: it lies in `(0, 1024.0]`,
/// that is, in `(0, LIMIT]` in fixed point.
pub open spec fn ior_ok(ior: int) -> bool {
    0 < ior <= LIMIT
}

pub open spec fn clamp_unit(c: int) -> int {
    if c > ONE {
        ONE as int
    } else if c < -ONE {
        -ONE as int
    } else {
        c
    }
}

/// A refractive surface (glass, water) that tints what passes by `attenuation`.
#[derive(Clone, Copy, Debug)]
pub struct Dielectric {
    pub index_of_refraction: i64,
    pub attenuation: Vec3,
}

impl Dielectric {
    pub open spec fn wf(self) -> bool {
        ior_ok(self.index_of_refraction as int) && self.attenuation.wf()
    }

    /// `1 / ior` entering the front face, `ior` leaving through the back.
    pub open spec fn ratio(self, front_face: bool) -> int {
        if front_face {
            tdiv(ONE * ONE, self.index_of_refraction as int)
        } else {
            self.index_of_refraction as int
        }
    }

    /// The cosine between the reversed incoming direction and the normal.
    pub open spec fn cos_theta(r: Ray, hit: RayHit) -> int {
        clamp_unit(dot(vneg(r.norm_dir), hit.normal))
    }

    /// Total internal reflection, or the coin falls under the reflectance.
    pub open spec fn reflects(self, draw: Sample, r: Ray, hit: RayHit) -> bool {
        let c = Self::cos_theta(r, hit);
        let s = isqrt(ONE * ONE - c * c);
        s * self.ratio(hit.front_face) > ONE * ONE || reflectance(c, self.index_of_refraction as int)
            > draw.coin
    }

    pub open spec fn dir_spec(self, draw: Sample, r: Ray, hit: RayHit) -> Vec3 {
        if self.reflects(draw, r, hit) {
            reflect(r.norm_dir, hit.normal)
        } else {
            refract(r.norm_dir, hit.normal, Self::cos_theta(r, hit), self.ratio(hit.front_face))
        }
    }

    pub open spec fn scatter_spec(self, draw: Sample, r: Ray, hit: RayHit) -> Scatter {
        Some((ray_from(hit.point, self.dir_spec(draw, r, hit)), self.attenuation))
    }

    pub fn new(index_of_refraction: i64, attenuation: Vec3) -> (r: Dielectric)
        requires
            ior_ok(index_of_refraction as int),
        ensures
            r.index_of_refraction == index_of_refraction,
            r.attenuation == attenuation,
    {
        Dielectric { index_of_refraction, attenuation }
    }

    /// Always scatters: reflects or refracts as the draw decides.
    pub fn scatter(&self, draw: &Sample, r: &Ray, hit: &RayHit) -> (s: Scatter)
        requires
            self.wf(),
            r.wf(),
            hit.wf(),
        ensures
            s == self.scatter_spec(*draw, *r, *hit),
            s.is_some(),
    {
        let ior = self.index_of_refraction;
        let ratio: i64 = if hit.front_face {
            proof {
                lemma_tdiv_bound((ONE * ONE) as int, ior as int, (ONE * ONE) as int);
            }
            div_trunc((ONE * ONE) as i128, ior as i128) as i64
        } else {
            ior
        };
        let d = r.norm_dir.neg().dot(hit.normal);
        let c: i64 = if d > ONE {
            ONE
        } else if d < -ONE {
            -ONE
        } else {
            d
        };
        proof {
            crate::vec3::lemma_mul_bound(c as int, c as int, ONE as int, ONE as int);
        }
        let s = isqrt_u128((ONE * ONE - c * c) as u128);
        proof {
            crate::vec3::lemma_mul_bound(s as int, ratio as int, 0x100_0000_0000_0000, 0x1_0000_0000);
        }
        let reflects = (s as i128) * (ratio as i128) > (ONE * ONE) as i128 || approx_reflectance(
            c,
            ior,
        ) > draw.coin as i128;
        if reflects {
            let reflection = reflect_vector(r.norm_dir, hit.normal);
            return Some((Ray::new(hit.point, reflection), self.attenuation));
        }
        let refracted = refract_vector(r.norm_dir, hit.normal, c, ratio);
        Some((Ray::new(hit.point, refracted), self.attenuation))
    }
}

fn refract_vector(v: Vec3, n: Vec3, cos_theta: i64, etai_etat: i64) -> (r: Vec3)
    requires
        v.wf(),
        n.wf(),
    ensures
        r == refract(v, n, cos_theta as int, etai_etat as int),
        r.wf(),
{
    let perp = v.add(n.scale(cos_theta)).scale(etai_etat);
    let q = perp.length_squared_raw();
    let diff: i64 = ONE * ONE - q;
    let a: i64 = if diff < 0 {
        -diff
    } else {
        diff
    };
    let k = isqrt_u128(a as u128);
    let parallel = n.scale(-(k as i64));
    perp.add(parallel)
}

fn approx_reflectance(cos_theta: i64, index_of_refraction: i64) -> (r: i128)
    requires
        -ONE <= cos_theta <= ONE,
        ior_ok(index_of_refraction as int),
    ensures
        r == reflectance(cos_theta as int, index_of_refraction as int),
{
    let ior = index_of_refraction as i128;
    let one = ONE as i128;
    proof {
        lemma_tdiv_bound(((ONE - ior) * ONE) as int, (ONE + ior) as int, 0x1_0000_0000_0000);
    }
    let q = div_trunc((one - ior) * one, one + ior);
    proof {
        crate::vec3::lemma_mul_bound(q as int, q as int, 0x1_0000_0000_0000, 0x1_0000_0000_0000);
        lemma_tdiv_bound((q * q) as int, ONE as int, 0x1_0000_0000_0000_0000_0000_0000);
    }
    let r0 = div_trunc(q * q, one);
    let x = one - cos_theta as i128;
    proof {
        crate::vec3::lemma_mul_bound(x as int, x as int, 0x2_0000, 0x2_0000);
        crate::vec3::lemma_mul_bound((x * x) as int, x as int, 0x4_0000_0000, 0x2_0000);
        crate::vec3::lemma_mul_bound((x * x * x) as int, x as int, 0x8_0000_0000_0000, 0x2_0000);
        crate::vec3::lemma_mul_bound((x * x * x * x) as int, x as int, 0x10_0000_0000_0000_0000, 0x2_0000);
    }
    let x5 = x * x * x * x * x;
    proof {
        lemma_tdiv_le(x5 as int, (ONE * ONE * ONE * ONE) as int, 32 * ONE);
    }
    let p = div_trunc(x5, one * one * one * one);
    proof {
        crate::vec3::lemma_mul_bound((ONE - r0) as int, p as int, 0x2_0000_0000_0000_0000_0000_0000, 32 * ONE);
        lemma_tdiv_bound(((ONE - r0) * p) as int, ONE as int, 0x2_0000_0000_0000_0000_0000_0000 * 32 * ONE);
    }
    r0 + div_trunc((one - r0) * p, one)
}

} // verus!

verus! {

/// The materials a surface can be made of.
#[derive(Clone, Copy, Debug)]
pub enum Material {
    Lambertian(Lambertian),
    Metalic(Metalic),
    Dielectric(Dielectric),
}

impl Material {
    pub open spec fn wf(self) -> bool {
        match self {
            Material::Lambertian(m) => m.wf(),
            Material::Metalic(m) => m.wf(),
            Material::Dielectric(m) => m.wf(),
        }
    }

    pub open spec fn scatter_spec(self, draw: Sample, r: Ray, hit: RayHit) -> Scatter {
        match self {
            Material::Lambertian(m) => m.scatter_spec(draw, hit),
            Material::Metalic(m) => m.scatter_spec(draw, r, hit),
            Material::Dielectric(m) => m.scatter_spec(draw, r, hit),
        }
    }

    /// The scattered ray and its attenuation, or `None` when the light is absorbed.
    pub fn scatter(&self, draw: &Sample, r: &Ray, hit: &RayHit) -> (s: Scatter)
        requires
            self.wf(),
            draw.wf(),
            r.wf(),
            hit.wf(),
        ensures
            s == self.scatter_spec(*draw, *r, *hit),
            s matches Some(p) ==> p.0.wf() && p.1.wf(),
    {
        match self {
            Material::Lambertian(m) => m.scatter(draw, hit),
            Material::Metalic(m) => m.scatter(draw, r, hit),
            Material::Dielectric(m) => m.scatter(draw, r, hit),
        }
    }
}

} // verus!
