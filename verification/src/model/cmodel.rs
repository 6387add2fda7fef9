use vstd::prelude::*;

verus! {

/// One triangle: three indices into the model's positions, three into its
/// texture coordinates, the external id of the texture it samples (negative
/// for a face drawn in its plain colour) and that colour.
#[derive(Clone, Copy, Debug, PartialEq, Eq)]
pub struct Face {
    pub vid: [usize; 3],
    pub uvid: [usize; 3],
    pub layer: i32,
    pub color: [u32; 4],
}

/// Indexed triangle geometry as callers provide it. Components are `f32` bit
/// patterns, as in `VertexTex`.
#[derive(Clone, Debug, PartialEq, Eq)]
pub struct Model {
    pub vs: Vec<[u32; 4]>,
    pub uvs: Vec<[u32; 2]>,
    pub faces: Vec<Face>,
}

} // verus!
