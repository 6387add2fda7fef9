use vstd::prelude::*;

verus! {

/// One vertex of the shared buffer.
///
/// Positions, colours and texture coordinates are carried as the IEEE-754 bit
/// patterns of their `f32` components (`f32::to_bits`); the bookkeeping in this
/// crate only ever copies them. `tex_layer` is the internal texture slot the
/// vertex samples from; a negative layer marks an untextured vertex.
#[derive(Clone, Copy, Debug, PartialEq, Eq)]
pub struct VertexTex {
    pub pos: [u32; 4],
    pub color: [u32; 4],
    pub tex_coord: [u32; 2],
    pub tex_layer: i32,
}

} // verus!
