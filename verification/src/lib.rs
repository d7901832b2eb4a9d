// A small path-tracing core: scenes of spheres with Lambertian, Metal and
// Dielectric materials, a pinhole camera, and a renderer that accumulates
// radiance along recursively scattered rays into an 8-bit pixel buffer.
//
// All scalar quantities are binary fixed-point numbers (see `fixed`), so the
// arithmetic of every stage is stated and checked exactly.

pub mod fixed;
pub mod types;
pub mod ray;
pub mod rand_geom;
pub mod material;
pub mod sphere;
pub mod hittable;
pub mod viewport;
pub mod camera;
pub mod image;
pub mod renderer;
pub mod ppm;
