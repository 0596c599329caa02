//! A software triangle-rasterization pipeline over fixed-point arithmetic:
//! transform builders, triangle rasterization with depth testing and
//! anti-aliasing (multi-sample and luminance-edge post-process variants),
//! and a closed family of fragment shaders with texture sampling.
//!
//! Scalars are signed 64-bit fixed-point numbers with 16 fractional bits
//! (`fixed::FX_ONE` is the representation of one). The surrounding
//! application converts measured quantities (angles' sines and cosines,
//! mesh coordinates) into this representation at the boundary.

pub mod fixed;
pub mod matrix;
pub mod transform;
pub mod triangle;
pub mod rasterizer;
pub mod texture;
pub mod shader;
