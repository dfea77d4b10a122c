//! A software rendering pipeline: linear algebra, camera transforms and z-buffered
//! triangle rasterizers.
pub mod camera;
pub mod error;
pub mod fixed;
pub mod framebuffer;
pub mod geometry;
pub mod gl;
pub mod line;
pub mod matrix;
pub mod model;
pub mod shaders;
pub mod triangle;
pub mod util;
pub mod zbuf;
