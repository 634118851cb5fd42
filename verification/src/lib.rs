//! A minimal software 3D rasterizer.
//!
//! Triangles (positions plus per-vertex colors) are carried through a model
//! transform, rasterized with barycentric coverage and interpolation, and
//! composited into a color buffer under a per-pixel depth test.
//!
//! All quantities flow through the pipeline as 16.16 fixed-point integers
//! (see [`fixed`]), so every stage is exact integer arithmetic with a
//! verified contract.

pub mod color;
pub mod fixed;
pub mod fragment;
pub mod framebuffer;
pub mod matrix;
pub mod model;
pub mod render;
pub mod triangle;
pub mod vertex;

use vstd::prelude::*;

verus! {

} // verus!
