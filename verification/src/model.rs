//! The model: an ordered vertex list, every three consecutive vertices one
//! triangle, appended from an external mesh source.

use vstd::prelude::*;
use crate::color::Color;
use crate::fixed::FX_MAX_POS;
use crate::vertex::Vec3;
use crate::vertex::Vertex;

verus! {

/// An ordered collection of vertices; insertion order is significant, since
/// indices `[0,1,2), [3,4,5), ...` form the triangles, and a trailing group of
/// one or two vertices is silently dropped by the render loop.
pub struct Model3D {
    pub vertices: Vec<Vertex>,
}

impl Model3D {
    /// Every stored position is within the range the transform stage accepts.
    pub open spec fn well_formed(self) -> bool {
        forall|i: int|
            0 <= i < self.vertices@.len() ==> (#[trigger] self.vertices@[i]).position.abs_le(
                FX_MAX_POS as int,
            )
    }

    /// An empty model.
    pub fn new() -> (m: Model3D)
        ensures
            m.vertices@.len() == 0,
            m.well_formed(),
    {
        Model3D { vertices: Vec::new() }
    }

    /// Appends one vertex built from mesh data.
    pub fn add_vertex(&mut self, position: Vec3, color: Color)
        requires
            old(self).well_formed(),
            position.abs_le(FX_MAX_POS as int),
        ensures
            final(self).well_formed(),
            final(self).vertices@ == old(self).vertices@.push(
                Vertex {
                    position,
                    color,
                    transformed_position: Vec3 { x: 0, y: 0, z: 0 },
                },
            ),
    {
        self.vertices.push(Vertex::new(position, color));
    }

    /// The number of stored vertices.
    pub fn len(&self) -> (n: usize)
        ensures
            n == self.vertices@.len(),
    {
        self.vertices.len()
    }
}

} // verus!
