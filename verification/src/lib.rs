//! A recursive Monte-Carlo path tracer over fixed-point arithmetic.
//!
//! Scenes are lists of spheres with diffuse, metallic or dielectric
//! materials. All geometry and radiance computation is carried out in a
//! signed 48.16 fixed-point representation, so every numeric step has an
//! exact, verified description.

pub mod camera;
pub mod fixed;
pub mod hittable;
pub mod material;
pub mod ray;
pub mod rng;
pub mod scene;
pub mod tracer;
pub mod vec3;

pub use fixed::SCALE;
