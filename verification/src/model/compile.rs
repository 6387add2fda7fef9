use crate::model::cmodel::{Face, Model};
use crate::vertex::VertexTex;
use std::collections::HashMap;
use vstd::prelude::*;

verus! {

broadcast use vstd::std_specs::hash::group_hash_axioms;

/// Whether corner `k` of `face` can be compiled: its position exists and,
/// for a textured face, so do its texture coordinate and the texture's slot.
pub open spec fn corner_ok(model: Model, face: Face, mapper: Map<i32, i32>, k: int) -> bool {
    &&& face.vid[k] < model.vs@.len()
    &&& face.layer >= 0 ==> face.uvid[k] < model.uvs@.len() && mapper.contains_key(face.layer)
}

/// Whether all three corners of `face` can be compiled.
pub open spec fn face_ok(model: Model, face: Face, mapper: Map<i32, i32>) -> bool {
    corner_ok(model, face, mapper, 0) && corner_ok(model, face, mapper, 1) && corner_ok(
        model,
        face,
        mapper,
        2,
    )
}

/// The vertex compiled for corner `k` of a well-formed face. An untextured
/// face keeps its negative layer and gets zero texture coordinates.
pub open spec fn corner_vertex(model: Model, face: Face, mapper: Map<i32, i32>, k: int) -> VertexTex {
    VertexTex {
        pos: model.vs@[face.vid[k] as int],
        color: face.color,
        tex_coord: if face.layer < 0 {
            [0u32, 0u32]
        } else {
            model.uvs@[face.uvid[k] as int]
        },
        tex_layer: if face.layer < 0 {
            face.layer
        } else {
            mapper[face.layer]
        },
    }
}

fn build_corner(model: &Model, face: &Face, mapper: &HashMap<i32, i32>, idx: usize) -> (v: Option<
    VertexTex,
>)
    requires
        idx < 3,
    ensures
        v is Some <==> corner_ok(*model, *face, mapper@, idx as int),
        v is Some ==> v->0 == corner_vertex(*model, *face, mapper@, idx as int),
{
    let tex_coord: [u32; 2] = if face.layer < 0 {
        [0u32, 0u32]
    } else {
        let at: usize = face.uvid[idx];
        if at < model.uvs.len() {
            model.uvs[at]
        } else {
            return None;
        }
    };
    let tex_layer: i32 = if face.layer < 0 {
        face.layer
    } else {
        match mapper.get(&face.layer) {
            Some(slot) => *slot,
            None => {
                return None;
            },
        }
    };
    let at: usize = face.vid[idx];
    if at >= model.vs.len() {
        return None;
    }
    let pos: [u32; 4] = model.vs[at];
    Some(VertexTex { pos, color: face.color, tex_coord, tex_layer })
}

/// Compiles one face into its three vertices, resolving the face's external
/// texture id through `mapper`. A face with any dangling reference yields
/// nothing.
pub fn build_face(model: &Model, face: &Face, mapper: &HashMap<i32, i32>) -> (vs: Option<
    [VertexTex; 3],
>)
    ensures
        vs is Some <==> face_ok(*model, *face, mapper@),
        vs is Some ==> forall|k: int|
            0 <= k < 3 ==> (#[trigger] (vs->0)[k]) == corner_vertex(*model, *face, mapper@, k),
{
    let a = match build_corner(model, face, mapper, 0) {
        Some(v) => v,
        None => {
            return None;
        },
    };
    let b = match build_corner(model, face, mapper, 1) {
        Some(v) => v,
        None => {
            return None;
        },
    };
    let c = match build_corner(model, face, mapper, 2) {
        Some(v) => v,
        None => {
            return None;
        },
    };
    Some([a, b, c])
}

/// The three vertices of a well-formed face, in corner order.
pub open spec fn face_vertices(model: Model, face: Face, mapper: Map<i32, i32>) -> Seq<VertexTex> {
    seq![
        corner_vertex(model, face, mapper, 0),
        corner_vertex(model, face, mapper, 1),
        corner_vertex(model, face, mapper, 2),
    ]
}

/// The vertices compiled from the first `n` faces: every well-formed face
/// contributes its three vertices in face order, every other face nothing.
pub open spec fn compiled_vertices(model: Model, mapper: Map<i32, i32>, n: int) -> Seq<VertexTex>
    decreases n,
{
    if n <= 0 {
        Seq::empty()
    } else if face_ok(model, model.faces@[n - 1], mapper) {
        compiled_vertices(model, mapper, n - 1) + face_vertices(
            model,
            model.faces@[n - 1],
            mapper,
        )
    } else {
        compiled_vertices(model, mapper, n - 1)
    }
}

/// How many of the first `n` faces are malformed.
pub open spec fn skipped_faces(model: Model, mapper: Map<i32, i32>, n: int) -> int
    decreases n,
{
    if n <= 0 {
        0
    } else if face_ok(model, model.faces@[n - 1], mapper) {
        skipped_faces(model, mapper, n - 1)
    } else {
        skipped_faces(model, mapper, n - 1) + 1
    }
}

/// Every kept face yields three vertices: kept and skipped faces add up.
pub proof fn lemma_compiled_len(model: Model, mapper: Map<i32, i32>, n: int)
    requires
        0 <= n,
    ensures
        0 <= skipped_faces(model, mapper, n) <= n,
        compiled_vertices(model, mapper, n).len() == 3 * (n - skipped_faces(model, mapper, n)),
    decreases n,
{
    if n > 0 {
        lemma_compiled_len(model, mapper, n - 1);
    }
}

/// Compiles every face of `model`. Malformed faces are left out one by one;
/// the second result counts them.
pub fn compile_model(model: &Model, mapper: &HashMap<i32, i32>) -> (r: (Vec<VertexTex>, usize))
    ensures
        r.0@ == compiled_vertices(*model, mapper@, model.faces@.len() as int),
        r.1 == skipped_faces(*model, mapper@, model.faces@.len() as int),
{
    let mut invalid: usize = 0;
    let mut vertices: Vec<VertexTex> = Vec::new();
    let mut i: usize = 0;
    while i < model.faces.len()
        invariant
            i <= model.faces@.len(),
            invalid == skipped_faces(*model, mapper@, i as int),
            invalid <= i,
            vertices@ == compiled_vertices(*model, mapper@, i as int),
        decreases model.faces@.len() - i,
    {
        match build_face(model, &model.faces[i], mapper) {
            Some(vs) => {
                let ghost before = vertices@;
                vertices.push(vs[0]);
                vertices.push(vs[1]);
                vertices.push(vs[2]);
                assert(vertices@ =~= before + face_vertices(*model, model.faces@[i as int], mapper@));
            },
            None => {
                invalid = invalid + 1;
            },
        }
        i = i + 1;
    }
    (vertices, invalid)
}

} // verus!
