//! A path tracer: spheres, parallelograms and smoke, seen through a camera
//! with depth of field and motion blur, and rendered into a plain-text image.
//!
//! Numbers are IEEE-754 binary64 bit patterns (`scalar`). Their order is
//! decided on the bits; their arithmetic is done in software and enters
//! the contracts by name only. Everything random is read from a `Sampler`
//! (`sampling`), so that each function is a function of its arguments.
//!
//! * `scalar`, `vec3`, `interval`, `aabb`, `ray`: the geometry kernel.
//! * `hitrecord`, `sphere`, `quad`, `hittable`, `bvhnode`: what a ray can hit.
//! * `perlin`, `texture`, `optics`, `material`: what a surface looks like.
//! * `scene`, `camera`: from a scene to a picture.
//! * `laws`: what holds of every scene.

pub mod scalar;
pub mod vec3;
pub mod interval;
pub mod ray;
pub mod aabb;
pub mod hitrecord;
pub mod sampling;
pub mod perlin;
pub mod texture;
pub mod optics;
pub mod material;
pub mod sphere;
pub mod quad;
pub mod hittable;
pub mod bvhnode;
pub mod laws;
pub mod scene;
pub mod camera;
