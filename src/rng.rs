//! Random draws and the generator of uniform values.
use vstd::prelude::*;
use crate::fixed::ONE;
use crate::vec3::{
    dot_raw, length, lemma_normalize_near_unit, mk, padded_square, vneg, vnormalize, Vec3,
};
use rand::rngs::SmallRng;

verus! {

/// The random values that one bounce of a path consumes: a direction drawn
/// uniformly on the unit sphere and a uniform value in `[0, ONE]`.
#[derive(Clone, Copy, Debug)]
pub struct Sample {
    pub unit: Vec3,
    pub coin: i64,
}

impl Sample {
    pub open spec fn wf(self) -> bool {
        self.unit.wf()
    }

    pub fn new(unit: Vec3, coin: i64) -> (r: Sample)
        ensures
            r == (Sample { unit, coin }),
    {
        Sample { unit, coin }
    }
}

#[verifier::external_type_specification]
#[verifier::external_body]
pub struct ExSmallRng(SmallRng);

/// Relies on rand's `SeedableRng::seed_from_u64` for `SmallRng`: a generator
/// whose stream is fixed by the seed. It never panics.
#[verifier::external_body]
fn small_rng_from_seed(seed: u64) -> (r: SmallRng) {
    <SmallRng as rand::SeedableRng>::seed_from_u64(seed)
}

/// Relies on rand's `Rng::gen_range` on an inclusive range of `i64`: a value
/// in `[lo, hi]`. It panics only on an empty range, which `requires` excludes.
#[verifier::external_body]
fn gen_range_inclusive(rng: &mut SmallRng, lo: i64, hi: i64) -> (r: i64)
    requires
        lo <= hi,
    ensures
        lo <= r <= hi,
{
    rand::Rng::gen_range(rng, lo..=hi)
}

/// A stream of uniform fixed-point values in `[0, ONE]`. The caller supplies
/// the seed, typically read from the system's entropy source.
pub struct UniRngGen {
    generator: SmallRng,
}

impl UniRngGen {
    pub fn new(seed: u64) -> (r: UniRngGen) {
        UniRngGen { generator: small_rng_from_seed(seed) }
    }

    /// The next uniform value in `[0, ONE]`.
    pub fn gen(&mut self) -> (r: i64)
        ensures
            0 <= r <= ONE,
    {
        gen_range_inclusive(&mut self.generator, 0, ONE)
    }
}

/// The unit vector along three standard-normal draws (zero if all are zero).
/// Its length is one up to rounding: with `l` the rounded-down length of
/// the draws, it is at most `ONE * |(x, y, z)| / l`, and adding one unit to
/// the magnitude of each component brings it above `ONE`.
pub fn unit_vector_from_normals(x: i64, y: i64, z: i64) -> (r: Vec3)
    ensures
        r == vnormalize(mk(x as int, y as int, z as int)),
        r.wf(),
        r == (Vec3 { x: 0, y: 0, z: 0 }) <==> (x == 0 && y == 0 && z == 0),
        !(x == 0 && y == 0 && z == 0) ==> {
            let v = mk(x as int, y as int, z as int);
            let l = length(v);
            &&& dot_raw(r, r) * (l * l) <= ONE * ONE * dot_raw(v, v)
            &&& padded_square(r) > ONE * ONE
        },
{
    let v = Vec3::new(x, y, z);
    proof {
        if !(x == 0 && y == 0 && z == 0) {
            lemma_normalize_near_unit(v);
        } else {
            assert(length(v) == 0) by {
                crate::fixed::lemma_isqrt_unique(0, 0);
            }
        }
    }
    v.normalize_or_zero()
}

/// `v` or its opposite, whichever lies strictly on the side of `normal`
/// (the opposite when neither does).
pub open spec fn to_hemisphere(v: Vec3, normal: Vec3) -> Vec3 {
    if dot_raw(v, normal) > 0 {
        v
    } else {
        vneg(v)
    }
}

/// Turns a random direction into the hemisphere around `normal`.
pub fn flip_to_hemisphere(v: Vec3, normal: Vec3) -> (r: Vec3)
    requires
        v.wf(),
        normal.wf(),
    ensures
        r == to_hemisphere(v, normal),
        r.wf(),
        dot_raw(r, normal) >= 0,
{
    if v.dot_raw(normal) > 0 {
        v
    } else {
        proof {
            crate::vec3::lemma_dot_neg(normal, v);
            assert(dot_raw(normal, vneg(v)) == dot_raw(vneg(v), normal)) by (nonlinear_arith);
        }
        v.neg()
    }
}

} // verus!
