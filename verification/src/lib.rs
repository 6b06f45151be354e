//! The decision core of a stochastic path tracer.
//!
//! Every quantity of the renderer is an IEEE-754 binary32 number, and the
//! library handles each one by its bit pattern. It owns what can be decided
//! on those patterns without rounding: ordering, sign changes, the choice
//! between the roots of an intersection, the nearest hit of a scene, what a
//! material does with a ray, when a light path ends, and how a colour
//! becomes three display integers. Rounded arithmetic is the caller's part.

pub mod decimal;
pub mod materials;
pub mod ray;
pub mod render;
pub mod scalar;
pub mod sphere;
pub mod vec3;
pub mod world;
