//! A small path tracer over a fixed-point scalar type, verified end to end:
//! ray/sphere intersection, nearest-hit search over a scene list,
//! material scattering, and the recursive radiance integrator.

pub mod fx;
pub mod hittable;
pub mod material;
pub mod ray;
pub mod render;
pub mod vec3;
