//! Renderable points: a fixed-point position, a color, and the slot for the
//! position the transform stage computes each frame.

use vstd::prelude::*;
use crate::color::Color;

verus! {

/// A three-component fixed-point vector.
#[derive(Clone, Copy, Debug, PartialEq, Eq, Structural)]
pub struct Vec3 {
    pub x: i64,
    pub y: i64,
    pub z: i64,
}

impl Vec3 {
    /// Builds a vector from its components.
    pub fn new(x: i64, y: i64, z: i64) -> (v: Vec3)
        ensures
            v == (Vec3 { x, y, z }),
    {
        Vec3 { x, y, z }
    }

    /// Whether every component has magnitude at most `bound`.
    pub open spec fn abs_le(self, bound: int) -> bool {
        -bound <= self.x <= bound && -bound <= self.y <= bound && -bound <= self.z <= bound
    }
}

/// A vertex: an immutable object-space position and color, plus the
/// transformed position the transform stage recomputes every frame.
#[derive(Clone, Copy, Debug, PartialEq, Eq, Structural)]
pub struct Vertex {
    pub position: Vec3,
    pub color: Color,
    pub transformed_position: Vec3,
}

impl Vertex {
    /// Builds a vertex from mesh data; the transformed position starts at the
    /// origin and is overwritten by the transform stage before use.
    pub fn new(position: Vec3, color: Color) -> (v: Vertex)
        ensures
            v.position == position,
            v.color == color,
            v.transformed_position == (Vec3 { x: 0, y: 0, z: 0 }),
    {
        Vertex { position, color, transformed_position: Vec3 { x: 0, y: 0, z: 0 } }
    }
}

} // verus!
