//! What a vertex has to offer to be clustered: a position.

use crate::obj::VertexTextureData;
use vstd::prelude::*;

verus! {

/// A vertex that has a position.
pub trait Vertex {
    /// The position, as the bit patterns of its three coordinates.
    fn position(&self) -> (u32, u32, u32);
}

impl Vertex for VertexTextureData {
    fn position(&self) -> (r: (u32, u32, u32))
        ensures
            r == self.vertex.position,
    {
        self.vertex.position
    }
}

} // verus!
