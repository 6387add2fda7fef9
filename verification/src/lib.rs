//! GPU resource bookkeeping for a batched triangle renderer: a texture slot
//! table with deferred compaction and a model store that packs every visible
//! model into one shared vertex buffer.

pub mod model;
pub mod renderer;
pub mod rmod;
pub mod teximg;
pub mod texman;
pub mod vertex;
