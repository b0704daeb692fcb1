//! A software 3D rasterizer over fixed-point arithmetic.
//!
//! The pipeline takes a triangle mesh with per-vertex attributes, a model
//! transform, a perspective camera and a set of point lights, and produces a
//! raster image: vertices are transformed and projected, backfacing triangles
//! are culled, the survivors are scan-converted with linear attribute
//! interpolation, and every surviving pixel is depth-tested and shaded.
//!
//! All scalar quantities are fixed-point numbers: an `i64` holding a real
//! value scaled by 2^24. The arithmetic saturates at the `i64` range instead
//! of wrapping, so every operation is total; the exact-value lemmas state
//! under which magnitudes an operation equals the ideal integer formula.

pub mod color_shader;
pub mod common;
pub mod config;
pub mod console_screen;
pub mod drawable;
pub mod fixed;
pub mod matrices;
pub mod model;
pub mod normal_drawable;
pub mod picture;
pub mod renderer;
pub mod texture;

pub use fixed::FX_ONE;
pub use fixed::FX_SHIFT;
