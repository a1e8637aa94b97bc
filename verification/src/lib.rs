//! A recursive Monte Carlo ray tracer over exact fixed-point arithmetic.
//!
//! Every geometric and radiometric quantity is a signed integer counting
//! millionths of a unit, so each arithmetic step has an exact mathematical
//! specification and the whole rendering pipeline — camera ray generation,
//! sphere intersection, material scattering and the recursive bounce loop —
//! is verified against it.

pub mod camera;
pub mod fixed;
pub mod hittable;
pub mod libs;
pub mod material;
pub mod ray;
pub mod rng;
pub mod vec3;
