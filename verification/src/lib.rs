//! A Monte Carlo recursive ray tracer over saturating fixed-point arithmetic.
//!
//! Every geometric and radiometric quantity is a fixed-point number: an `i64`
//! counting steps of `1 / FX_ONE`. All arithmetic saturates instead of
//! overflowing, so every function of the renderer is total, and each one
//! carries an exact functional contract: its result equals a spec-level
//! mirror of the computation. Rendering is therefore deterministic by
//! contract: the emitted image is a function of the scene, the camera and
//! the random seed alone.

pub mod camera;
pub mod color;
pub mod fixed;
pub mod hittable;
pub mod hittable_list;
pub mod interval;
pub mod material;
pub mod ray;
pub mod sampler;
pub mod sphere;
pub mod vec3;
