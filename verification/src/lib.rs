//! A small path tracer for scenes of planes and spheres.
//!
//! The library holds what a render decides: the colour algebra, the shading
//! a material applies at each bounce, which hit is the nearest, how long a
//! path is followed and what it gives, and how the samples of a pixel are
//! averaged into an image. Numbers in single precision are carried as bit
//! patterns (`scalar`): the library orders and weighs them, and leaves the
//! arithmetic of vectors to the shapes and the camera that its caller
//! supplies (`shape::RayTraceShape`, and the `aim` that `Scene::render`
//! takes).

pub mod color;
pub mod frame;
pub mod material;
pub mod pixel;
pub mod plane;
pub mod ray;
pub mod scalar;
pub mod scene;
pub mod shape;
pub mod sphere;
pub mod vector;
pub mod world;
