use std::collections::HashMap;
use ttri::model::cmodel::{Face, Model};
use ttri::model::compile::{build_face, compile_model};
use ttri::model::compiled_model::CompiledModel;
use ttri::model::model_ref::ModelRef;
use ttri::model::modelman::{ModelError, Modelman, BUFSIZE};
use ttri::vertex::VertexTex;

fn bits4(v: [f32; 4]) -> [u32; 4] {
    [v[0].to_bits(), v[1].to_bits(), v[2].to_bits(), v[3].to_bits()]
}

fn bits2(v: [f32; 2]) -> [u32; 2] {
    [v[0].to_bits(), v[1].to_bits()]
}

fn square() -> Model {
    Model {
        vs: vec![
            bits4([0.0, 0.0, 0.0, 1.0]),
            bits4([1.0, 0.0, 0.0, 1.0]),
            bits4([0.0, 1.0, 0.0, 1.0]),
            bits4([1.0, 1.0, 0.0, 1.0]),
        ],
        uvs: vec![bits2([0.0, 0.0]), bits2([1.0, 0.0]), bits2([0.0, 1.0]), bits2([1.0, 1.0])],
        faces: vec![],
    }
}

fn face(vid: [usize; 3], uvid: [usize; 3], layer: i32) -> Face {
    Face { vid, uvid, layer, color: bits4([0.5, 0.25, 1.0, 1.0]) }
}

fn mapper(pairs: &[(i32, i32)]) -> HashMap<i32, i32> {
    pairs.iter().copied().collect()
}

/// A model of `n` untextured vertices that all carry `tag` as their first
/// position component.
fn tagged(n: usize, tag: u32) -> CompiledModel {
    let v = VertexTex { pos: [tag, 0, 0, 0], color: [0; 4], tex_coord: [0; 2], tex_layer: -1 };
    CompiledModel { visible: true, z: 0, vertices: vec![v; n] }
}

fn tags(man: &Modelman) -> Vec<u32> {
    man.vertex_buffer().vertices().iter().map(|v| v.pos[0]).collect()
}

#[test]
fn textured_face_resolves_layer_position_and_uv() {
    let model = square();
    let f = face([0, 1, 3], [3, 1, 0], 7);
    let vs = build_face(&model, &f, &mapper(&[(7, 2)])).unwrap();
    assert_eq!(vs[0].pos, bits4([0.0, 0.0, 0.0, 1.0]));
    assert_eq!(vs[1].pos, bits4([1.0, 0.0, 0.0, 1.0]));
    assert_eq!(vs[2].pos, bits4([1.0, 1.0, 0.0, 1.0]));
    assert_eq!(vs[0].tex_coord, bits2([1.0, 1.0]));
    assert_eq!(vs[1].tex_coord, bits2([1.0, 0.0]));
    assert_eq!(vs[2].tex_coord, bits2([0.0, 0.0]));
    for v in vs.iter() {
        assert_eq!(v.tex_layer, 2);
        assert_eq!(v.color, bits4([0.5, 0.25, 1.0, 1.0]));
    }
}

#[test]
fn untextured_face_keeps_layer_and_ignores_uvs() {
    let model = square();
    // uv indices are out of range, and the mapper is empty: neither is looked at
    let f = face([2, 1, 0], [99, 99, 99], -3);
    let vs = build_face(&model, &f, &HashMap::new()).unwrap();
    for v in vs.iter() {
        assert_eq!(v.tex_layer, -3);
        assert_eq!(v.tex_coord, bits2([0.0, 0.0]));
    }
    assert_eq!(vs[0].pos, bits4([0.0, 1.0, 0.0, 1.0]));
}

#[test]
fn malformed_faces_yield_nothing() {
    let model = square();
    let m = mapper(&[(0, 0)]);
    assert!(build_face(&model, &face([0, 1, 4], [0, 1, 2], 0), &m).is_none());
    assert!(build_face(&model, &face([0, 1, 2], [0, 4, 2], 0), &m).is_none());
    assert!(build_face(&model, &face([0, 1, 2], [0, 1, 2], 5), &m).is_none());
    assert!(build_face(&model, &face([4, 1, 2], [0, 1, 2], -1), &m).is_none());
    assert!(build_face(&model, &face([0, 1, 2], [0, 1, 2], 0), &m).is_some());
}

#[test]
fn face_skipping_drops_only_the_bad_face() {
    let mut model = square();
    model.faces = vec![
        face([0, 1, 2], [0, 1, 2], 0),
        face([1, 2, 9], [0, 1, 2], 0),
        face([3, 1, 2], [3, 1, 2], 0),
    ];
    let (vertices, skipped) = compile_model(&model, &mapper(&[(0, 0)]));
    assert_eq!(vertices.len(), 2 * 3);
    assert_eq!(skipped, 1);
    assert_eq!(vertices[3].pos, bits4([1.0, 1.0, 0.0, 1.0]));

    let mut man = Modelman::new();
    let (handle, skipped) = man.insert(&model, &mapper(&[(0, 0)]));
    assert_eq!(skipped, 1);
    let compiled = handle.borrow(&man).unwrap();
    assert_eq!(compiled.vertices.len(), 6);
    assert!(compiled.visible);
    assert_eq!(compiled.z, 0);
    assert_eq!(compiled.vertices, vertices);
}

#[test]
fn new_store_has_the_fixed_capacity() {
    let man = Modelman::new();
    assert_eq!(BUFSIZE, 1 << 24);
    assert_eq!(man.vertex_buffer().capacity(), BUFSIZE);
    assert_eq!(man.len(), 0);
    assert_eq!(man.cached_size(), None);
    assert!(!man.vertex_buffer().is_claimed());
    assert_eq!(man.vertex_buffer().write_count(), 0);
}

#[test]
fn draw_order_sorts_models() {
    let mut man = Modelman::with_capacity(100);
    let a = ModelRef::new(&mut man, tagged(1, 30));
    let b = ModelRef::new(&mut man, tagged(2, 10));
    let c = ModelRef::new(&mut man, tagged(3, 20));
    assert_eq!(a.set_z(&mut man, 3), Ok(()));
    assert_eq!(b.set_z(&mut man, 1), Ok(()));
    assert_eq!(c.set_z(&mut man, 2), Ok(()));
    assert_eq!(man.write_buffer(), Ok(Some(6)));
    assert_eq!(tags(&man), vec![10, 10, 20, 20, 20, 30]);
}

#[test]
fn equal_draw_orders_keep_insertion_order() {
    let mut man = Modelman::with_capacity(100);
    let a = ModelRef::new(&mut man, tagged(1, 1));
    let _b = ModelRef::new(&mut man, tagged(1, 2));
    let c = ModelRef::new(&mut man, tagged(1, 3));
    let _d = ModelRef::new(&mut man, tagged(1, 4));
    assert_eq!(a.set_z(&mut man, 5), Ok(()));
    assert_eq!(c.set_z(&mut man, -5), Ok(()));
    assert_eq!(man.write_buffer(), Ok(Some(4)));
    assert_eq!(tags(&man), vec![3, 2, 4, 1]);
    assert_eq!(c.set_z(&mut man, 0), Ok(()));
    assert_eq!(a.set_z(&mut man, 0), Ok(()));
    assert_eq!(man.write_buffer(), Ok(Some(4)));
    assert_eq!(tags(&man), vec![1, 2, 3, 4]);
}

#[test]
fn hidden_models_contribute_nothing() {
    let mut man = Modelman::with_capacity(100);
    let a = ModelRef::new(&mut man, tagged(2, 1));
    let _b = ModelRef::new(&mut man, tagged(3, 2));
    assert_eq!(man.write_buffer(), Ok(Some(5)));
    assert_eq!(a.set_visibility(&mut man, false), Ok(()));
    assert_eq!(man.cached_size(), None);
    assert_eq!(man.write_buffer(), Ok(Some(3)));
    assert_eq!(tags(&man), vec![2, 2, 2]);
    assert_eq!(a.set_visibility(&mut man, true), Ok(()));
    assert_eq!(man.write_buffer(), Ok(Some(5)));
    assert_eq!(tags(&man), vec![1, 1, 2, 2, 2]);
}

#[test]
fn second_write_takes_the_cached_count() {
    let mut man = Modelman::with_capacity(100);
    let a = ModelRef::new(&mut man, tagged(2, 1));
    assert_eq!(man.write_buffer(), Ok(Some(2)));
    assert_eq!(man.vertex_buffer().write_count(), 1);
    assert_eq!(man.cached_size(), Some(2));
    assert_eq!(man.write_buffer(), Ok(Some(2)));
    assert_eq!(man.write_buffer(), Ok(Some(2)));
    assert_eq!(man.vertex_buffer().write_count(), 1);
    // a change of draw order invalidates the count
    assert_eq!(a.set_z(&mut man, 4), Ok(()));
    assert_eq!(man.cached_size(), None);
    assert_eq!(man.write_buffer(), Ok(Some(2)));
    assert_eq!(man.vertex_buffer().write_count(), 2);
}

#[test]
fn cached_count_is_served_even_while_claimed() {
    let mut man = Modelman::with_capacity(100);
    let _a = ModelRef::new(&mut man, tagged(2, 1));
    assert_eq!(man.write_buffer(), Ok(Some(2)));
    man.set_buffer_claimed(true);
    assert_eq!(man.write_buffer(), Ok(Some(2)));
    assert_eq!(man.vertex_buffer().write_count(), 1);
}

#[test]
fn claimed_buffer_postpones_the_write() {
    let mut man = Modelman::with_capacity(100);
    let _a = ModelRef::new(&mut man, tagged(2, 9));
    man.set_buffer_claimed(true);
    assert_eq!(man.write_buffer(), Ok(None));
    assert_eq!(man.cached_size(), None);
    assert!(tags(&man).is_empty());
    assert_eq!(man.vertex_buffer().write_count(), 0);
    man.set_buffer_claimed(false);
    assert_eq!(man.write_buffer(), Ok(Some(2)));
    assert_eq!(tags(&man), vec![9, 9]);
}

#[test]
fn capacity_is_an_error_not_a_truncation() {
    let mut man = Modelman::with_capacity(4);
    let _a = ModelRef::new(&mut man, tagged(3, 1));
    let b = ModelRef::new(&mut man, tagged(2, 2));
    assert_eq!(man.write_buffer(), Err(ModelError::CapacityExceeded));
    assert_eq!(man.cached_size(), None);
    assert!(tags(&man).is_empty());
    // a second try fails the same way
    assert_eq!(man.write_buffer(), Err(ModelError::CapacityExceeded));
    // hidden models do not count
    assert_eq!(b.set_visibility(&mut man, false), Ok(()));
    assert_eq!(man.write_buffer(), Ok(Some(3)));
    // exactly full is fine
    let _c = ModelRef::new(&mut man, tagged(1, 3));
    assert_eq!(man.write_buffer(), Ok(Some(4)));
    assert_eq!(tags(&man), vec![1, 1, 1, 3]);
}

#[test]
fn released_models_are_collected() {
    let mut man = Modelman::with_capacity(100);
    let a = ModelRef::new(&mut man, tagged(1, 1));
    let b = ModelRef::new(&mut man, tagged(1, 2));
    let a_id = a.id();
    assert!(!a.dropped(&man));
    assert_eq!(man.write_buffer(), Ok(Some(2)));
    assert_eq!(a.release(&mut man), Ok(()));
    assert!(man.dropped(a_id));
    // marked, not yet collected
    assert_eq!(man.len(), 2);
    assert_eq!(man.cached_size(), Some(2));
    man.gc();
    assert_eq!(man.len(), 1);
    assert_eq!(man.cached_size(), None);
    assert!(man.get(a_id).is_none());
    assert!(b.borrow(&man).is_some());
    assert_eq!(man.set_z(a_id, 1), Err(ModelError::UnknownHandle));
    assert_eq!(man.write_buffer(), Ok(Some(1)));
    assert_eq!(tags(&man), vec![2]);
}

#[test]
fn write_buffer_collects_first() {
    let mut man = Modelman::with_capacity(100);
    let a = ModelRef::new(&mut man, tagged(1, 1));
    let _b = ModelRef::new(&mut man, tagged(2, 2));
    assert_eq!(man.write_buffer(), Ok(Some(3)));
    assert_eq!(a.release(&mut man), Ok(()));
    assert_eq!(man.write_buffer(), Ok(Some(2)));
    assert_eq!(man.len(), 1);
    assert_eq!(tags(&man), vec![2, 2]);
}

#[test]
fn collection_without_drops_keeps_the_cache() {
    let mut man = Modelman::with_capacity(100);
    let _a = ModelRef::new(&mut man, tagged(1, 1));
    assert_eq!(man.write_buffer(), Ok(Some(1)));
    man.gc();
    assert_eq!(man.cached_size(), Some(1));
    assert_eq!(man.len(), 1);
}

#[test]
fn shared_handles_keep_a_model_alive() {
    let mut man = Modelman::with_capacity(100);
    let a = ModelRef::new(&mut man, tagged(1, 1));
    let a2 = a.share(&mut man).unwrap();
    assert_eq!(a2.id(), a.id());
    assert_eq!(a.release(&mut man), Ok(()));
    assert!(!a2.dropped(&man));
    man.gc();
    assert_eq!(man.len(), 1);
    assert_eq!(a2.set_z(&mut man, 9), Ok(()));
    assert_eq!(a2.borrow(&man).unwrap().z, 9);
    let id = a2.id();
    assert_eq!(a2.release(&mut man), Ok(()));
    assert!(man.dropped(id));
    man.gc();
    assert_eq!(man.len(), 0);
    assert_eq!(man.share(id), Err(ModelError::UnknownHandle));
    assert_eq!(man.release(id), Err(ModelError::UnknownHandle));
    assert_eq!(man.set_visibility(id, false), Err(ModelError::UnknownHandle));
    assert!(man.dropped(id));
}

#[test]
fn handles_of_another_store_are_unknown() {
    let mut one = Modelman::with_capacity(10);
    let mut two = Modelman::with_capacity(10);
    let _a = ModelRef::new(&mut one, tagged(1, 1));
    let b = ModelRef::new(&mut one, tagged(1, 2));
    assert_eq!(b.id(), 1);
    assert_eq!(b.set_z(&mut two, 3), Err(ModelError::UnknownHandle));
    assert!(b.dropped(&two));
    assert!(b.borrow(&two).is_none());
    assert_eq!(two.cached_size(), None);
}

#[test]
fn map_tex_rewrites_textured_layers_only() {
    let mut man = Modelman::with_capacity(100);
    let mut model = tagged(4, 1);
    model.vertices[0].tex_layer = 0;
    model.vertices[1].tex_layer = 2;
    model.vertices[2].tex_layer = -1;
    model.vertices[3].tex_layer = 3;
    let a = ModelRef::new(&mut man, model);
    let mut second = tagged(1, 2);
    second.vertices[0].tex_layer = 2;
    let b = ModelRef::new(&mut man, second);
    assert_eq!(man.write_buffer(), Ok(Some(5)));

    let table = mapper(&[(0, 0), (2, 1), (3, 2)]);
    assert!(man.can_map_tex(&table));
    man.map_tex(table);
    assert_eq!(man.cached_size(), None);
    let layers: Vec<i32> = a.borrow(&man).unwrap().vertices.iter().map(|v| v.tex_layer).collect();
    assert_eq!(layers, vec![0, 1, -1, 2]);
    assert_eq!(b.borrow(&man).unwrap().vertices[0].tex_layer, 1);
    assert_eq!(a.borrow(&man).unwrap().vertices[1].pos, [1, 0, 0, 0]);

    assert!(!man.can_map_tex(&mapper(&[(0, 0), (1, 1)])));
    assert!(man.can_map_tex(&mapper(&[(0, 5), (1, 6), (2, 7)])));
}

#[test]
fn claimed_buffer_skips_the_frame_whatever_there_is_to_write() {
    let mut man = Modelman::with_capacity(4);
    let _a = ModelRef::new(&mut man, tagged(3, 1));
    let b = ModelRef::new(&mut man, tagged(2, 2));
    man.set_buffer_claimed(true);
    // too many vertices, but the buffer cannot be locked: retry later
    assert_eq!(man.write_buffer(), Ok(None));
    assert_eq!(man.cached_size(), None);
    assert!(tags(&man).is_empty());
    assert_eq!(man.len(), 2);
    assert_eq!(man.vertex_buffer().write_count(), 0);
    man.set_buffer_claimed(false);
    assert_eq!(man.write_buffer(), Err(ModelError::CapacityExceeded));
    assert_eq!(b.release(&mut man), Ok(()));
    assert_eq!(man.write_buffer(), Ok(Some(3)));
}

#[test]
fn needs_write_tells_when_the_buffer_is_out_of_date() {
    let mut man = Modelman::with_capacity(10);
    assert!(man.needs_write());
    let a = ModelRef::new(&mut man, tagged(1, 1));
    let b = ModelRef::new(&mut man, tagged(1, 2));
    assert!(man.needs_write());
    assert_eq!(man.write_buffer(), Ok(Some(2)));
    assert!(!man.needs_write());
    // a handle more or less changes nothing while one is left
    let a2 = a.share(&mut man).unwrap();
    assert_eq!(a.release(&mut man), Ok(()));
    assert!(!man.needs_write());
    assert_eq!(b.release(&mut man), Ok(()));
    assert!(man.needs_write());
    assert_eq!(man.write_buffer(), Ok(Some(1)));
    assert!(!man.needs_write());
    assert_eq!(a2.set_z(&mut man, 1), Ok(()));
    assert!(man.needs_write());
}

#[test]
fn try_map_tex_changes_all_or_nothing() {
    let mut man = Modelman::with_capacity(10);
    let mut model = tagged(3, 1);
    model.vertices[0].tex_layer = 4;
    model.vertices[1].tex_layer = -7;
    model.vertices[2].tex_layer = 1;
    let a = ModelRef::new(&mut man, model);
    assert_eq!(man.write_buffer(), Ok(Some(3)));
    let layers = |man: &Modelman| -> Vec<i32> {
        a.borrow(man).unwrap().vertices.iter().map(|v| v.tex_layer).collect()
    };
    // layer 1 has no entry: nothing changes, not even the cache
    assert!(!man.try_map_tex(mapper(&[(4, 0), (-7, 9)])));
    assert_eq!(layers(&man), vec![4, -7, 1]);
    assert_eq!(man.cached_size(), Some(3));
    // an entry for a negative key is never used
    assert!(man.try_map_tex(mapper(&[(4, 0), (1, 1), (-7, 9)])));
    assert_eq!(layers(&man), vec![0, -7, 1]);
    assert_eq!(man.cached_size(), None);
}
