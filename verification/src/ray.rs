//! Rays, and the record of where one meets a surface.

use vstd::prelude::*;
use crate::materials::Material;
use crate::scalar::Scalar;
use crate::vec3::{Point3D, Vec3};

verus! {

/// A half-line: the points `origin + t * direction`.
#[derive(Clone, Copy, Debug, PartialEq, Eq, Structural)]
pub struct Ray {
    pub origin: Point3D,
    pub direction: Vec3,
}

impl Ray {
    pub fn new(origin: Point3D, direction: Vec3) -> (ray: Ray)
        ensures
            ray == (Ray { origin, direction }),
    {
        Ray { origin, direction }
    }
}

/// One intersection of a ray with a surface.
///
/// `normal` is the unit normal of the surface at `point`, turned to face
/// against the ray; `outward_facing` tells whether the ray arrived from
/// outside, where no turning was needed.
#[derive(Clone, Copy, Debug, PartialEq, Eq, Structural)]
pub struct HitRecord {
    pub point: Point3D,
    pub normal: Vec3,
    pub outward_facing: bool,
    pub t: Scalar,
    pub mtrl: Material,
}

} // verus!
