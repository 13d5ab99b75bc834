//! A recursive, stochastically sampled ray tracer over exact rational
//! arithmetic: vector algebra, sphere intersection, a tagged-union material
//! scattering model, a depth-of-field camera, the radiance integrator, and
//! the per-pixel sampling loop, each with a verified contract.

use vstd::prelude::*;

pub mod camera;
pub mod hittable;
pub mod hittable_list;
pub mod laws;
pub mod material;
pub mod num;
pub mod pixel;
pub mod point;
pub mod ppm;
pub mod render;
pub mod ray;
pub mod rng;
pub mod sphere;

verus! {

} // verus!
