//! A Monte-Carlo path tracer over fixed-point arithmetic: scenes of
//! spheres, rectangles and triangles with diffuse, specular and
//! refractive materials, rendered through a thin-lens camera by a
//! recursive, depth-capped path estimator, with every function's
//! behavior pinned by an exact integer specification.

pub mod camera;
pub mod fixed;
pub mod hitable;
pub mod hitable_list;
pub mod image;
pub mod material;
pub mod model_loader;
pub mod plane;
pub mod ray;
pub mod ray_hit;
pub mod render;
pub mod rng;
pub mod sphere;
pub mod triangle;
pub mod vec3;
