//! A verified path-tracing core: fixed-point vector algebra, ray/sphere
//! intersection, material scattering, a thin-lens camera and a recursive
//! radiance estimator, each pinned to an exact specification-level model.
//!
//! Scalars are fixed-point numbers: a value is `raw / 65536`, with `raw`
//! saturated to a symmetric range so that every operation is total and
//! free of overflow. Randomness comes from an explicitly passed, seedable
//! stream, so a whole render is a function of its inputs.

pub mod camera;
pub mod fx;
pub mod hit;
pub mod material;
pub mod prng;
pub mod ray;
pub mod render;
pub mod sphere;
pub mod vector;
pub mod world;

pub use camera::Camera;
pub use fx::Fx;
pub use hit::HitRecord;
pub use material::Material;
pub use prng::Prng;
pub use ray::Ray;
pub use sphere::Sphere;
pub use vector::Vector;
pub use world::World;
