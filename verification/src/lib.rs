//! A software triangle rasterizer over fixed-point arithmetic.
//!
//! Geometry, colors and texture coordinates are carried as signed
//! fixed-point numbers with [`fx::FX`] units to one. The pipeline projects
//! vertices through a model-view-projection matrix, walks each triangle's
//! screen-space bounding box, tests pixel centers against the three edge
//! functions, interpolates depth and attributes with perspective
//! correction, depth-tests, shades with one directional light, and writes
//! into color and depth framebuffers.

pub mod fx;
pub mod framebuffer;
pub mod texture;
pub mod model;
pub mod raster;
pub mod laws;

pub use fx::FX;
