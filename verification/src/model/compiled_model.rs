use crate::vertex::VertexTex;
use vstd::prelude::*;

verus! {

/// A model after insertion: its faces flattened to vertices that carry
/// internal texture slots, plus the two switches a handle controls.
#[derive(Clone, Debug, PartialEq, Eq)]
pub struct CompiledModel {
    pub visible: bool,
    pub z: i32,
    pub vertices: Vec<VertexTex>,
}

/// What a compiled model is to the contracts of this crate.
pub struct CompiledModelView {
    pub visible: bool,
    pub z: i32,
    pub vertices: Seq<VertexTex>,
}

impl View for CompiledModel {
    type V = CompiledModelView;

    open spec fn view(&self) -> CompiledModelView {
        CompiledModelView { visible: self.visible, z: self.z, vertices: self.vertices@ }
    }
}

/// The views of a sequence of models.
pub open spec fn model_views(ms: Seq<CompiledModel>) -> Seq<CompiledModelView> {
    ms.map_values(|m: CompiledModel| m@)
}

} // verus!
