//! Spheres, and which of a ray's two crossings counts as the hit.

use vstd::prelude::*;
use crate::materials::Material;
use crate::ray::HitRecord;
use crate::scalar::Scalar;
use crate::vec3::{Point3D, Vec3};

verus! {

/// A sphere with the material of its surface.
#[derive(Clone, Copy, Debug, PartialEq, Eq, Structural)]
pub struct Sphere {
    pub center: Point3D,
    pub radius: Scalar,
    pub mtrl: Material,
}

/// One of the two places where the line of a ray crosses a sphere.
#[derive(Clone, Copy, Debug, PartialEq, Eq, Structural)]
pub struct Crossing {
    /// The ray's parameter at the crossing, a root of the quadratic.
    pub t: Scalar,
    /// The point of the ray at `t`.
    pub point: Point3D,
    /// The unit normal of the sphere at `point`, pointing away from the
    /// centre.
    pub normal: Vec3,
    /// The dot product of the ray's direction with `normal`.
    pub alignment: Scalar,
}

/// The solved equation of a ray and a sphere, `a t^2 + 2 h t + c = 0`.
#[derive(Clone, Copy, Debug, PartialEq, Eq, Structural)]
pub struct Quadratic {
    /// `h^2 - a c`; negative where the line misses the sphere.
    pub discriminant: Scalar,
    /// The crossing at the root `(-h - sqrt(discriminant)) / a`.
    pub near: Crossing,
    /// The crossing at the root `(-h + sqrt(discriminant)) / a`.
    pub far: Crossing,
}

/// Whether `t` lies strictly between `t_min` and `t_max`.
pub open spec fn inside(t: Scalar, t_min: Scalar, t_max: Scalar) -> bool {
    t.less(t_max) && t_min.less(t)
}

impl Crossing {
    /// Whether the ray reaches the crossing from outside the sphere.
    pub open spec fn outward_facing(self) -> bool {
        self.alignment.less(Scalar { bits: 0 })
    }

    /// The record of a hit at this crossing: the normal is kept where the
    /// ray comes from outside and negated where it comes from inside.
    pub open spec fn record(self, mtrl: Material) -> HitRecord {
        HitRecord {
            point: self.point,
            normal: if self.outward_facing() {
                self.normal
            } else {
                self.normal.negated()
            },
            outward_facing: self.outward_facing(),
            t: self.t,
            mtrl,
        }
    }

    /// The dot product of the ray's direction with the normal that the
    /// record carries. Negating a vector negates its dot products, so this
    /// is `alignment` where the normal was kept and `-alignment` where it
    /// was negated.
    pub open spec fn record_alignment(self) -> Scalar {
        if self.outward_facing() {
            self.alignment
        } else {
            self.alignment.negated()
        }
    }

    fn to_record(&self, mtrl: Material) -> (rec: HitRecord)
        ensures
            rec == self.record(mtrl),
    {
        let outward_facing = self.alignment.lt(Scalar::zero());
        HitRecord {
            point: self.point,
            normal: if outward_facing {
                self.normal
            } else {
                self.normal.neg()
            },
            outward_facing,
            t: self.t,
            mtrl,
        }
    }
}

impl Quadratic {
    /// Whether the two roots come in order: the far one is not less than
    /// the near one. It holds of every quadratic whose leading
    /// coefficient, the squared length of the ray's direction, is positive.
    pub open spec fn ascending(self) -> bool {
        !self.far.t.less(self.near.t)
    }

    /// Whether the equation has real roots.
    pub open spec fn solvable(self) -> bool {
        (Scalar { bits: 0 }).at_most(self.discriminant)
    }
}

impl Sphere {
    pub fn new(center: Point3D, radius: Scalar, mtrl: Material) -> (s: Sphere)
        ensures
            s == (Sphere { center, radius, mtrl }),
    {
        Sphere { center, radius, mtrl }
    }

    /// The hit of a ray on the sphere within `(t_min, t_max)`: none where
    /// the discriminant is negative or a NaN; otherwise the near crossing
    /// if its root lies strictly inside the interval, else the far one if
    /// its root does, else none.
    pub open spec fn hit_of(
        self,
        quadratic: Quadratic,
        t_min: Scalar,
        t_max: Scalar,
    ) -> Option<HitRecord> {
        if !quadratic.solvable() {
            None
        } else if inside(quadratic.near.t, t_min, t_max) {
            Some(quadratic.near.record(self.mtrl))
        } else if inside(quadratic.far.t, t_min, t_max) {
            Some(quadratic.far.record(self.mtrl))
        } else {
            None
        }
    }

    /// Finds where a ray hits the sphere, for the ray whose equation with
    /// this sphere `quadratic` solves.
    pub fn hit(
        &self,
        quadratic: &Quadratic,
        t_min: Scalar,
        t_max: Scalar,
    ) -> (rec: Option<HitRecord>)
        ensures
            rec == self.hit_of(*quadratic, t_min, t_max),
            match rec {
                Some(rec) => inside(rec.t, t_min, t_max),
                None => true,
            },
    {
        if quadratic.discriminant.ge(Scalar::zero()) {
            if quadratic.near.t.lt(t_max) && quadratic.near.t.gt(t_min) {
                return Some(quadratic.near.to_record(self.mtrl));
            }
            if quadratic.far.t.lt(t_max) && quadratic.far.t.gt(t_min) {
                return Some(quadratic.far.to_record(self.mtrl));
            }
        }
        None
    }
}

/// The normal of a hit record never points along the ray: the dot product
/// of the ray's direction with it is zero or negative, for every crossing
/// whose alignment is a number.
pub proof fn lemma_normal_opposes_ray(crossing: Crossing)
    requires
        !crossing.alignment.nan(),
    ensures
        crossing.record_alignment().at_most(Scalar { bits: 0 }),
{
}

/// A hit lies strictly inside the interval it was asked for, and comes
/// from one of the two crossings.
pub proof fn lemma_hit_is_inside(sphere: Sphere, quadratic: Quadratic, t_min: Scalar, t_max: Scalar)
    ensures
        match sphere.hit_of(quadratic, t_min, t_max) {
            Some(rec) => inside(rec.t, t_min, t_max) && (rec == quadratic.near.record(sphere.mtrl)
                || rec == quadratic.far.record(sphere.mtrl)),
            None => true,
        },
{
}

/// Of the crossings inside the interval the hit is the first along the
/// ray: where the roots are in ascending order, no crossing of a solvable
/// quadratic lies inside the interval and before the hit, and there is a
/// hit as soon as one lies inside.
pub proof fn lemma_hit_is_first_crossing(
    sphere: Sphere,
    quadratic: Quadratic,
    t_min: Scalar,
    t_max: Scalar,
)
    requires
        quadratic.solvable(),
        quadratic.ascending(),
    ensures
        match sphere.hit_of(quadratic, t_min, t_max) {
            Some(rec) => {
                &&& inside(quadratic.near.t, t_min, t_max) ==> rec.t.at_most(quadratic.near.t)
                &&& inside(quadratic.far.t, t_min, t_max) ==> rec.t.at_most(quadratic.far.t)
            },
            None => !inside(quadratic.near.t, t_min, t_max) && !inside(
                quadratic.far.t,
                t_min,
                t_max,
            ),
        },
{
}

/// A line that misses the sphere gives no hit, whatever the interval.
pub proof fn lemma_miss_gives_no_hit(
    sphere: Sphere,
    quadratic: Quadratic,
    t_min: Scalar,
    t_max: Scalar,
)
    requires
        quadratic.discriminant.less(Scalar { bits: 0 }),
    ensures
        sphere.hit_of(quadratic, t_min, t_max).is_none(),
{
}

} // verus!
