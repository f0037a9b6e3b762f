//! The decision core of a small diffuse ray tracer.
//!
//! Scalars travel through this library as binary64 bit patterns. Everything
//! done to them here is exact: reading the sign, comparing, negating and
//! truncating to an integer. Rounded arithmetic (sums, products, quotients,
//! square roots) belongs to the host program, which hands its results in and
//! takes the library's decisions back.

pub mod hit;
pub mod ppm;
pub mod ray;
pub mod scalar;
pub mod sphere;
pub mod vec3;
