//! A small path tracer over spheres, in 16.16 fixed-point arithmetic.
//!
//! Scalars are integers counting units of 1/65536 (`fixed::ONE` is 1.0).
//! Vector components saturate at `fixed::LIMIT` (1024.0), so every
//! operation is total and free of overflow; inside that range they are exact
//! up to the rounding of each product and quotient toward zero.
//!
//! Intersection, scattering and the radiance recursion are stated over
//! integer models and proved. The random values that drive Monte-Carlo
//! sampling are drawn by the caller and handed in as `rng::Sample`s, one per
//! bounce, so that a path is a deterministic function of its draws.
pub mod fixed;
pub mod vec3;
pub mod ray;
pub mod rng;
pub mod material;
pub mod hittable;
pub mod sphere;
pub mod trace;
