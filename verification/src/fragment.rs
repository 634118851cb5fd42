//! Fragments: candidate pixel writes produced by the rasterizer, pending the
//! depth test of the composite stage.

use vstd::prelude::*;
use crate::color::Color;

verus! {

/// One candidate pixel write: a screen coordinate, the barycentrically
/// interpolated depth (lower is nearer), and the interpolated color.
#[derive(Clone, Copy, Debug, PartialEq, Eq, Structural)]
pub struct Fragment {
    pub x: usize,
    pub y: usize,
    pub depth: i64,
    pub color: Color,
}

} // verus!
