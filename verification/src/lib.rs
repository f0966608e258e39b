//! A Monte Carlo path tracer over decimal fixed-point arithmetic.
//!
//! Rays leave a thin-lens [`camera::Camera`], meet the nearest surface of
//! a scene ([`hittable`], [`sphere`]), are scattered by its material
//! ([`material`]) and followed until they reach the sky or their depth
//! runs out ([`render`]).
//!
//! Every quantity is a [`fixed::Fixed`] scalar with six decimal places
//! whose operations saturate.  So every function is total, and its
//! contract states its result exactly: as a formula of its arguments,
//! with the random choices among them.  Functions that draw from a
//! random source say which choices could have given their result.

pub mod camera;
pub mod fixed;
pub mod hittable;
pub mod material;
pub mod objects;
pub mod random;
pub mod ray;
pub mod render;
pub mod scene;
pub mod sphere;
pub mod vec3;
