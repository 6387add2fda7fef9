//! Triangle models: the geometry handed in by callers, the compiled form the
//! renderer keeps, the handles callers hold, and the store that packs all of
//! it into the shared vertex buffer.

pub mod cmodel;
pub mod compiled_model;
pub mod compile;
pub mod buffer;
pub mod model_ref;
pub mod modelman;
pub mod order;
