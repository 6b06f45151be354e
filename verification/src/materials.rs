//! What a surface does with a ray that reaches it.
//!
//! A material either absorbs the ray or sends it on, tinted by an
//! attenuation colour. The directions a material chooses between are
//! rounded arithmetic and come from the caller; which of them leaves the
//! surface, and whether any does, is decided here.

use vstd::prelude::*;
use crate::ray::{HitRecord, Ray};
use crate::scalar::{Scalar, ONE_BITS};
use crate::vec3::{Color, Vec3};

verus! {

/// A matte surface that scatters in every direction.
#[derive(Clone, Copy, Debug, PartialEq, Eq, Structural)]
pub struct Lambertian {
    pub albedo: Color,
}

/// A mirror, blurred by `fuzz` between 0 (sharp) and 1.
#[derive(Clone, Copy, Debug, PartialEq, Eq, Structural)]
pub struct Metal {
    pub albedo: Color,
    pub fuzz: Scalar,
}

/// A clear medium such as glass, with its index of refraction.
#[derive(Clone, Copy, Debug, PartialEq, Eq, Structural)]
pub struct Dielectric {
    pub ref_idx: Scalar,
}

#[derive(Clone, Copy, Debug, PartialEq, Eq, Structural)]
pub enum Material {
    Lambertian(Lambertian),
    Metal(Metal),
    Dielectric(Dielectric),
}

/// What the optics of a clear surface yield for one incoming ray.
#[derive(Clone, Copy, Debug, PartialEq, Eq, Structural)]
pub struct Refraction {
    /// The sine of the refracted angle by Snell's law: the ratio of the two
    /// indices times the sine of the incoming angle. Above 1 no refracted
    /// ray exists.
    pub sine: Scalar,
    /// The share of light that the surface reflects at this angle.
    pub reflectance: Scalar,
    /// A uniform random number from 0 up to 1.
    pub draw: Scalar,
    /// The mirrored direction.
    pub reflected: Vec3,
    /// The refracted direction.
    pub refracted: Vec3,
}

/// The colour that takes nothing away: (1, 1, 1).
pub open spec fn white() -> Color {
    Vec3 { x: Scalar { bits: ONE_BITS }, y: Scalar { bits: ONE_BITS }, z: Scalar { bits: ONE_BITS } }
}

impl Lambertian {
    pub fn new(albedo: Color) -> (m: Lambertian)
        ensures
            m.albedo == albedo,
    {
        Lambertian { albedo }
    }

    /// The direction a matte surface sends a ray in: `candidate`, unless it
    /// is too short to be a direction, in which case the normal.
    pub open spec fn direction(normal: Vec3, candidate: Vec3) -> Vec3 {
        if candidate.nearly_zero() {
            normal
        } else {
            candidate
        }
    }

    /// Scatters off a matte surface. `candidate` is the sum of the normal
    /// of `rec` and a random unit vector. The ray always leaves, from the
    /// point of the hit and tinted by the albedo; where the two summands
    /// all but cancel, it leaves along the normal.
    pub fn scatter(&self, rec: &HitRecord, candidate: Vec3) -> (out: Option<(Color, Ray)>)
        ensures
            out == Some(
                (
                    self.albedo,
                    (Ray { origin: rec.point, direction: Self::direction(rec.normal, candidate) }),
                ),
            ),
    {
        let direction = if candidate.near_zero() {
            rec.normal
        } else {
            candidate
        };
        Some((self.albedo, Ray::new(rec.point, direction)))
    }
}

impl Metal {
    pub fn new(c: Color, f: Scalar) -> (m: Metal)
        ensures
            m.albedo == c,
            m.fuzz == f,
    {
        Metal { albedo: c, fuzz: f }
    }

    /// Scatters off a metal. `outgoing` is the mirrored direction of the
    /// incoming ray plus `fuzz` times a random point of the unit ball, and
    /// `alignment` its dot product with the normal of `rec`. The ray
    /// leaves along `outgoing`, tinted by the albedo, exactly when
    /// `alignment` is positive: one that would enter the surface is
    /// absorbed.
    pub fn scatter(
        &self,
        rec: &HitRecord,
        outgoing: Vec3,
        alignment: Scalar,
    ) -> (out: Option<(Color, Ray)>)
        ensures
            out == if (Scalar { bits: 0 }).less(alignment) {
                Some((self.albedo, (Ray { origin: rec.point, direction: outgoing })))
            } else {
                None
            },
    {
        if alignment.gt(Scalar::zero()) {
            Some((self.albedo, Ray::new(rec.point, outgoing)))
        } else {
            None
        }
    }
}

impl Dielectric {
    pub fn new(ri: Scalar) -> (m: Dielectric)
        ensures
            m.ref_idx == ri,
    {
        Dielectric { ref_idx: ri }
    }

    /// The ratio of the index on the ray's side of the surface to the index
    /// beyond it: `inverse`, which is `1 / ref_idx`, where the ray enters
    /// the medium from outside, and `ref_idx` where it leaves.
    pub fn refraction_ratio(&self, outward_facing: bool, inverse: Scalar) -> (ratio: Scalar)
        ensures
            ratio == if outward_facing {
                inverse
            } else {
                self.ref_idx
            },
    {
        if outward_facing {
            inverse
        } else {
            self.ref_idx
        }
    }

    /// Whether a clear surface mirrors the ray: always where no refracted
    /// ray exists, and otherwise with the probability `reflectance`, which
    /// is where `draw` falls below it.
    pub open spec fn reflects(optics: Refraction) -> bool {
        (Scalar { bits: ONE_BITS }).less(optics.sine) || optics.draw.less(optics.reflectance)
    }

    /// Scatters off a clear surface. The ray always leaves, from the point
    /// of the hit and with nothing taken away: mirrored where `reflects`
    /// holds, refracted otherwise.
    pub fn scatter(&self, rec: &HitRecord, optics: &Refraction) -> (out: Option<(Color, Ray)>)
        ensures
            out == Some(
                (
                    white(),
                    (Ray {
                        origin: rec.point,
                        direction: if Self::reflects(*optics) {
                            optics.reflected
                        } else {
                            optics.refracted
                        },
                    }),
                ),
            ),
    {
        let cannot_refract = optics.sine.gt(Scalar::one());
        let will_reflect = optics.draw.lt(optics.reflectance);
        let direction = if cannot_refract || will_reflect {
            optics.reflected
        } else {
            optics.refracted
        };
        Some((Vec3::new(Scalar::one(), Scalar::one(), Scalar::one()), Ray::new(rec.point, direction)))
    }
}

/// A matte surface never sends a ray along the zero vector: whatever the
/// candidate direction, the direction chosen for a hit whose normal is not
/// the zero vector is not the zero vector either.
pub proof fn lemma_lambertian_direction_is_not_zero(normal: Vec3, candidate: Vec3)
    requires
        !normal.is_zero(),
    ensures
        !Lambertian::direction(normal, candidate).is_zero(),
{
}

} // verus!
