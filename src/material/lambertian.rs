//! Diffuse reflection.

use vstd::prelude::*;

verus! {

/// How a diffuse surface draws the direction of a scattered ray, around the
/// surface normal: a point of the outward hemisphere, a point of the unit
/// ball, or a point of the unit sphere (the cosine-weighted Lambertian law).
#[derive(Clone, Copy, Debug, PartialEq, Eq, Structural)]
pub enum Distribution {
    Uniform,
    Sphere,
    Lambertian,
}

} // verus!
