//! A small ray tracer over fixed-point arithmetic: vector algebra, rays,
//! colors with their canonical text encoding, sphere geometry with
//! nearest-hit scene resolution, diffuse scattering, a pinhole camera,
//! and the recursive radiance integrator. Every scalar is an `i64`
//! scaled by `fixed::FX_ONE`, so each routine's contract states its
//! result exactly, rounding included.

pub mod fixed;
pub mod rng;
pub mod vec3;
pub mod ray;
pub mod color;
pub mod material;
pub mod hittable;
pub mod camera;
pub mod trace;
