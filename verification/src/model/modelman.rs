use crate::model::buffer::VertexBuffer;
use crate::model::cmodel::Model;
use crate::model::compile::{compile_model, compiled_vertices, skipped_faces};
use crate::model::compiled_model::{model_views, CompiledModel, CompiledModelView};
use crate::model::model_ref::ModelRef;
use crate::model::order::{
    concat_vertices, draw_order, lemma_concat_grows, lemma_concat_step, lemma_insert_at,
    packed,
};
use crate::vertex::VertexTex;
use std::collections::HashMap;
use vstd::prelude::*;

verus! {

broadcast use vstd::std_specs::hash::group_hash_axioms;

/// Capacity of the shared vertex buffer of `Modelman::new`, in vertices.
pub const BUFSIZE: usize = 16777216;

/// Why a model operation was refused.
#[derive(Clone, Copy, Debug, PartialEq, Eq)]
pub enum ModelError {
    /// The handle names no model of this store.
    UnknownHandle,
    /// The model already has `usize::MAX` handles.
    TooManyHandles,
    /// The visible models together exceed the shared buffer.
    CapacityExceeded,
}

/// Bookkeeping for one retained model: its key and the number of handles
/// callers hold on it.
#[derive(Clone, Copy, Debug, PartialEq, Eq)]
pub struct Owner {
    pub id: u64,
    pub holders: usize,
}

/// Model store.
///
/// Retains every inserted model until its last handle is released, and packs
/// the visible ones, ordered by `z`, into one shared vertex buffer. The count
/// of packed vertices is cached and recomputed only after a change.
pub struct Modelman {
    buffer: VertexBuffer,
    cached_size: Option<usize>,
    models: Vec<CompiledModel>,
    owners: Vec<Owner>,
    next_id: u64,
}

/// What a model store is to the contracts of this crate.
pub struct ModelmanView {
    /// The retained models, oldest first.
    pub models: Seq<CompiledModelView>,
    /// Key and handle count of each retained model, in the same order.
    pub owners: Seq<Owner>,
    /// The cached vertex count; `None` when the buffer is out of date.
    pub cached: Option<usize>,
    /// The key the next inserted model will get.
    pub issued: nat,
    /// The shared vertex buffer.
    pub buffer: VertexBuffer,
}

impl ModelmanView {
    /// The store's invariant: one owner record per model, keys ascending
    /// and below `issued`, a buffer within its capacity, and a cached count
    /// only while the buffer holds the packed vertices of the retained
    /// models.
    pub open spec fn valid(self) -> bool {
        &&& self.owners.len() == self.models.len()
        &&& keys_ascend(self.owners)
        &&& forall|i: int| 0 <= i < self.owners.len() ==> (#[trigger] self.owners[i]).id < self.issued
        &&& self.buffer.contents().len() <= self.buffer.limit()
        &&& self.cached matches Some(n) ==> self.buffer.contents() == packed(self.models) && n
            == self.buffer.contents().len()
    }
}

/// Whether some retained model goes by `id`.
pub open spec fn tracks(owners: Seq<Owner>, id: u64) -> bool {
    exists|i: int| 0 <= i < owners.len() && (#[trigger] owners[i]).id == id
}

/// Where the model known as `id` stands among the retained ones.
pub open spec fn position(owners: Seq<Owner>, id: u64) -> int {
    choose|i: int| 0 <= i < owners.len() && (#[trigger] owners[i]).id == id
}

/// Keys grow with the position, so none occurs twice.
pub open spec fn keys_ascend(owners: Seq<Owner>) -> bool {
    forall|i: int, j: int|
        0 <= i < j < owners.len() ==> (#[trigger] owners[i]).id < (#[trigger] owners[j]).id
}

/// Whether some retained model goes by `id` and still has a handle.
pub open spec fn is_held(owners: Seq<Owner>, id: u64) -> bool {
    exists|i: int| 0 <= i < owners.len() && (#[trigger] owners[i]).id == id && owners[i].holders > 0
}

/// Whether the model known as `id` has no handle left, or is not retained.
pub open spec fn is_dropped(owners: Seq<Owner>, id: u64) -> bool {
    !is_held(owners, id)
}

/// What a collection leaves of the cached count: it survives only if no
/// model was dropped.
pub open spec fn cache_after_gc(pre: ModelmanView) -> Option<usize> {
    if kept_models(pre.models, pre.owners, pre.models.len() as int).len()
        == pre.models.len() {
        pre.cached
    } else {
        None
    }
}

/// How `write_buffer` takes a store from `pre` to `post` with result `r`.
///
/// Dropped models are collected first. A cached count that survives the
/// collection is returned as it is and nothing is rewritten. Otherwise a
/// claimed buffer postpones the rewrite, whatever there is to write; a free
/// buffer that the visible models, packed in draw order, do not fit into is
/// an error; and in neither case the buffer or the cache changes. Else the
/// buffer holds the packed vertices and their count is returned and cached.
pub open spec fn write_outcome(
    pre: ModelmanView,
    post: ModelmanView,
    r: Result<Option<usize>, ModelError>,
) -> bool {
    let ms = kept_models(pre.models, pre.owners, pre.models.len() as int);
    let os = kept_owners(pre.owners, pre.owners.len() as int);
    let all = packed(ms);
    &&& post.models == ms
    &&& post.owners == os
    &&& post.issued == pre.issued
    &&& post.buffer.limit() == pre.buffer.limit()
    &&& post.buffer.claimed() == pre.buffer.claimed()
    &&& match cache_after_gc(pre) {
        Some(n) => r == Ok::<Option<usize>, ModelError>(Some(n)) && post.cached == Some(n)
            && post.buffer == pre.buffer,
        None => if pre.buffer.claimed() {
            &&& r == Ok::<Option<usize>, ModelError>(None)
            &&& post.cached is None
            &&& post.buffer == pre.buffer
        } else if all.len() > pre.buffer.limit() {
            &&& r == Err::<Option<usize>, ModelError>(ModelError::CapacityExceeded)
            &&& post.cached is None
            &&& post.buffer == pre.buffer
        } else {
            &&& r == Ok::<Option<usize>, ModelError>(Some(all.len() as usize))
            &&& post.cached == Some(all.len() as usize)
            &&& post.buffer.contents() == all
            &&& post.buffer.writes() == if pre.buffer.writes() < u64::MAX {
                pre.buffer.writes() + 1
            } else {
                pre.buffer.writes()
            }
        },
    }
}

/// A vertex after its layer went through the slot table; an untextured
/// vertex stays as it is.
pub open spec fn remap_vertex(v: VertexTex, table: Map<i32, i32>) -> VertexTex {
    if v.tex_layer >= 0 {
        VertexTex { tex_layer: table[v.tex_layer], ..v }
    } else {
        v
    }
}

/// Whether `table` has an entry for the layer of every textured vertex.
pub open spec fn table_covers(ms: Seq<CompiledModelView>, table: Map<i32, i32>) -> bool {
    forall|m: int, k: int|
        0 <= m < ms.len() && 0 <= k < ms[m].vertices.len() && (#[trigger] ms[m].vertices[k]).tex_layer
            >= 0 ==> table.contains_key(ms[m].vertices[k].tex_layer)
}

/// A model with every vertex passed through the slot table.
pub open spec fn remap_model(m: CompiledModelView, table: Map<i32, i32>) -> CompiledModelView {
    CompiledModelView {
        vertices: m.vertices.map_values(|v: VertexTex| remap_vertex(v, table)),
        ..m
    }
}

/// Every model with every vertex passed through the slot table.
pub open spec fn remap_models(ms: Seq<CompiledModelView>, table: Map<i32, i32>) -> Seq<
    CompiledModelView,
> {
    ms.map_values(|m: CompiledModelView| remap_model(m, table))
}

/// The owner records among the first `n` that still have a handle.
pub open spec fn kept_owners(os: Seq<Owner>, n: int) -> Seq<Owner>
    decreases n,
{
    if n <= 0 {
        Seq::empty()
    } else if os[n - 1].holders > 0 {
        kept_owners(os, n - 1).push(os[n - 1])
    } else {
        kept_owners(os, n - 1)
    }
}

/// The models among the first `n` whose owner record still has a handle.
pub open spec fn kept_models(ms: Seq<CompiledModelView>, os: Seq<Owner>, n: int) -> Seq<
    CompiledModelView,
>
    decreases n,
{
    if n <= 0 {
        Seq::empty()
    } else if os[n - 1].holders > 0 {
        kept_models(ms, os, n - 1).push(ms[n - 1])
    } else {
        kept_models(ms, os, n - 1)
    }
}

/// How `set_z` takes a store from `pre` to `post`: the model known as `id`
/// gets draw order `z` and the cached count is dropped; an unknown key
/// changes nothing.
pub open spec fn set_z_outcome(
    pre: ModelmanView,
    post: ModelmanView,
    id: u64,
    z: i32,
    r: Result<(), ModelError>,
) -> bool {
    let at = position(pre.owners, id);
    &&& post.owners == pre.owners
    &&& post.issued == pre.issued
    &&& post.buffer == pre.buffer
    &&& if tracks(pre.owners, id) {
        &&& r is Ok
        &&& post.models == pre.models.update(at, CompiledModelView { z, ..pre.models[at] })
        &&& post.cached is None
    } else {
        &&& r == Err::<(), ModelError>(ModelError::UnknownHandle)
        &&& post.models == pre.models
        &&& post.cached == pre.cached
    }
}

/// How `set_visibility` takes a store from `pre` to `post`: the model known
/// as `id` is shown or hidden and the cached count is dropped; an unknown
/// key changes nothing.
pub open spec fn set_visibility_outcome(
    pre: ModelmanView,
    post: ModelmanView,
    id: u64,
    visible: bool,
    r: Result<(), ModelError>,
) -> bool {
    let at = position(pre.owners, id);
    &&& post.owners == pre.owners
    &&& post.issued == pre.issued
    &&& post.buffer == pre.buffer
    &&& if tracks(pre.owners, id) {
        &&& r is Ok
        &&& post.models == pre.models.update(
            at,
            CompiledModelView { visible, ..pre.models[at] },
        )
        &&& post.cached is None
    } else {
        &&& r == Err::<(), ModelError>(ModelError::UnknownHandle)
        &&& post.models == pre.models
        &&& post.cached == pre.cached
    }
}

/// How `share` takes a store from `pre` to `post`: one more handle is
/// counted on the model known as `id`, unless the key is unknown or the
/// count is at its limit; then nothing changes.
pub open spec fn share_outcome(
    pre: ModelmanView,
    post: ModelmanView,
    id: u64,
    r: Result<ModelRef, ModelError>,
) -> bool {
    let at = position(pre.owners, id);
    &&& post.models == pre.models
    &&& post.cached == pre.cached
    &&& post.issued == pre.issued
    &&& post.buffer == pre.buffer
    &&& if !tracks(pre.owners, id) {
        &&& r == Err::<ModelRef, ModelError>(ModelError::UnknownHandle)
        &&& post.owners == pre.owners
    } else if pre.owners[at].holders == usize::MAX {
        &&& r == Err::<ModelRef, ModelError>(ModelError::TooManyHandles)
        &&& post.owners == pre.owners
    } else {
        &&& r is Ok
        &&& r->Ok_0.key() == id
        &&& post.owners == pre.owners.update(
            at,
            Owner { id, holders: (pre.owners[at].holders + 1) as usize },
        )
    }
}

/// How `release` takes a store from `pre` to `post`: one handle less is
/// counted on the model known as `id`; an unknown key changes nothing.
pub open spec fn release_outcome(
    pre: ModelmanView,
    post: ModelmanView,
    id: u64,
    r: Result<(), ModelError>,
) -> bool {
    let at = position(pre.owners, id);
    let held = pre.owners[at].holders;
    &&& post.models == pre.models
    &&& post.cached == pre.cached
    &&& post.issued == pre.issued
    &&& post.buffer == pre.buffer
    &&& if tracks(pre.owners, id) {
        &&& r is Ok
        &&& post.owners == pre.owners.update(
            at,
            Owner {
                id,
                holders: if held > 0 {
                    (held - 1) as usize
                } else {
                    0
                },
            },
        )
    } else {
        &&& r == Err::<(), ModelError>(ModelError::UnknownHandle)
        &&& post.owners == pre.owners
    }
}

impl View for Modelman {
    type V = ModelmanView;

    closed spec fn view(&self) -> ModelmanView {
        ModelmanView {
            models: model_views(self.models@),
            owners: self.owners@,
            cached: self.cached_size,
            issued: self.next_id as nat,
            buffer: self.buffer,
        }
    }
}

impl Modelman {
    /// The store's invariant; see `ModelmanView::valid`.
    pub open spec fn wf(&self) -> bool {
        self@.valid()
    }

    /// An empty store over a buffer of `capacity` vertices.
    pub fn with_capacity(capacity: usize) -> (m: Self)
        ensures
            m.wf(),
            m@.models == Seq::<CompiledModelView>::empty(),
            m@.owners == Seq::<Owner>::empty(),
            m@.cached is None,
            m@.issued == 0,
            m@.buffer.contents() == Seq::<VertexTex>::empty(),
            m@.buffer.limit() == capacity,
            !m@.buffer.claimed(),
            m@.buffer.writes() == 0,
    {
        Modelman {
            buffer: VertexBuffer::new(capacity),
            cached_size: None,
            models: Vec::new(),
            owners: Vec::new(),
            next_id: 0,
        }
    }

    /// An empty store over a buffer of `BUFSIZE` vertices.
    pub fn new() -> (m: Self)
        ensures
            m.wf(),
            m@.models == Seq::<CompiledModelView>::empty(),
            m@.owners == Seq::<Owner>::empty(),
            m@.cached is None,
            m@.issued == 0,
            m@.buffer.contents() == Seq::<VertexTex>::empty(),
            m@.buffer.limit() == BUFSIZE,
            !m@.buffer.claimed(),
            m@.buffer.writes() == 0,
    {
        Modelman::with_capacity(BUFSIZE)
    }

    /// Position of the model known as `id`, if it is retained.
    fn find(&self, id: u64) -> (at: Option<usize>)
        requires
            self.wf(),
        ensures
            at is Some <==> tracks(self@.owners, id),
            at is Some ==> at->0 == position(self@.owners, id) && at->0 < self@.owners.len()
                && self@.owners[at->0 as int].id == id,
    {
        let mut i: usize = 0;
        while i < self.owners.len()
            invariant
                i <= self.owners@.len(),
                keys_ascend(self.owners@),
                forall|j: int| 0 <= j < i ==> (#[trigger] self.owners@[j]).id != id,
            decreases self.owners@.len() - i,
        {
            if self.owners[i].id == id {
                proof {
                    let p = position(self.owners@, id);
                    assert(self.owners@[i as int].id == id);
                    if p < i {
                        assert(self.owners@[p].id < self.owners@[i as int].id);
                    } else if p > i {
                        assert(self.owners@[i as int].id < self.owners@[p].id);
                    }
                }
                return Some(i);
            }
            i = i + 1;
        }
        None
    }

    /// Retains an already compiled model with one handle and returns that
    /// handle.
    pub fn adopt(&mut self, model: CompiledModel) -> (h: ModelRef)
        requires
            old(self).wf(),
            old(self)@.issued < u64::MAX,
        ensures
            final(self).wf(),
            h.key() == old(self)@.issued,
            final(self)@.models == old(self)@.models.push(model@),
            final(self)@.owners == old(self)@.owners.push(
                Owner { id: old(self)@.issued as u64, holders: 1 },
            ),
            final(self)@.issued == old(self)@.issued + 1,
            final(self)@.cached is None,
            final(self)@.buffer == old(self)@.buffer,
    {
        let id: u64 = self.next_id;
        self.models.push(model);
        self.owners.push(Owner { id, holders: 1 });
        self.next_id = id + 1;
        self.cached_size = None;
        assert(model_views(self.models@) =~= model_views(old(self).models@).push(model@));
        ModelRef::from_key(id)
    }

    /// Compiles `model` against the external-to-slot `mapper`, retains the
    /// result as a visible model of draw order 0 with one handle, and returns
    /// that handle with the number of faces that had to be skipped.
    pub fn insert(&mut self, model: &Model, mapper: &HashMap<i32, i32>) -> (r: (ModelRef, usize))
        requires
            old(self).wf(),
            old(self)@.issued < u64::MAX,
        ensures
            final(self).wf(),
            r.0.key() == old(self)@.issued,
            r.1 == skipped_faces(*model, mapper@, model.faces@.len() as int),
            final(self)@.models == old(self)@.models.push(
                CompiledModelView {
                    visible: true,
                    z: 0,
                    vertices: compiled_vertices(*model, mapper@, model.faces@.len() as int),
                },
            ),
            final(self)@.owners == old(self)@.owners.push(
                Owner { id: old(self)@.issued as u64, holders: 1 },
            ),
            final(self)@.issued == old(self)@.issued + 1,
            final(self)@.cached is None,
            final(self)@.buffer == old(self)@.buffer,
    {
        let (vertices, invalid) = compile_model(model, mapper);
        let handle = self.adopt(CompiledModel { visible: true, z: 0, vertices });
        (handle, invalid)
    }

    /// Sets the draw order of the model known as `id` and invalidates the
    /// cached count.
    pub fn set_z(&mut self, id: u64, z: i32) -> (r: Result<(), ModelError>)
        requires
            old(self).wf(),
        ensures
            final(self).wf(),
            set_z_outcome(old(self)@, final(self)@, id, z, r),
    {
        match self.find(id) {
            Some(at) => {
                self.models[at].z = z;
                self.cached_size = None;
                assert(model_views(self.models@) =~= model_views(old(self).models@).update(
                    at as int,
                    CompiledModelView { z, ..model_views(old(self).models@)[at as int] },
                ));
                Ok(())
            },
            None => Err(ModelError::UnknownHandle),
        }
    }

    /// Shows or hides the model known as `id` and invalidates the cached
    /// count.
    pub fn set_visibility(&mut self, id: u64, visible: bool) -> (r: Result<(), ModelError>)
        requires
            old(self).wf(),
        ensures
            final(self).wf(),
            set_visibility_outcome(old(self)@, final(self)@, id, visible, r),
    {
        match self.find(id) {
            Some(at) => {
                self.models[at].visible = visible;
                self.cached_size = None;
                assert(model_views(self.models@) =~= model_views(old(self).models@).update(
                    at as int,
                    CompiledModelView { visible, ..model_views(old(self).models@)[at as int] },
                ));
                Ok(())
            },
            None => Err(ModelError::UnknownHandle),
        }
    }

    /// Whether no handle is left on the model known as `id`. A model that is
    /// not retained counts as dropped.
    pub fn dropped(&self, id: u64) -> (d: bool)
        requires
            self.wf(),
        ensures
            d == is_dropped(self@.owners, id),
    {
        match self.find(id) {
            Some(at) => {
                proof {
                    if is_held(self.owners@, id) {
                        let j = choose|j: int|
                            0 <= j < self.owners@.len() && (#[trigger] self.owners@[j]).id == id
                                && self.owners@[j].holders > 0;
                        if j < at {
                            assert(self.owners@[j].id < self.owners@[at as int].id);
                        } else if j > at {
                            assert(self.owners@[at as int].id < self.owners@[j].id);
                        }
                    }
                }
                self.owners[at].holders == 0
            },
            None => true,
        }
    }

    /// The model known as `id`, if it is retained.
    pub fn get(&self, id: u64) -> (m: Option<&CompiledModel>)
        requires
            self.wf(),
        ensures
            m is Some <==> tracks(self@.owners, id),
            m is Some ==> (*m->0)@ == self@.models[position(self@.owners, id)],
    {
        match self.find(id) {
            Some(at) => Some(&self.models[at]),
            None => None,
        }
    }

    /// Counts one more handle on the model known as `id` and returns it.
    pub fn share(&mut self, id: u64) -> (r: Result<ModelRef, ModelError>)
        requires
            old(self).wf(),
        ensures
            final(self).wf(),
            share_outcome(old(self)@, final(self)@, id, r),
    {
        match self.find(id) {
            Some(at) => {
                let held: usize = self.owners[at].holders;
                if held == usize::MAX {
                    return Err(ModelError::TooManyHandles);
                }
                self.owners.set(at, Owner { id, holders: held + 1 });
                Ok(ModelRef::from_key(id))
            },
            None => Err(ModelError::UnknownHandle),
        }
    }

    /// Gives up one handle on the model known as `id`. The model stays
    /// retained until the next collection.
    pub fn release(&mut self, id: u64) -> (r: Result<(), ModelError>)
        requires
            old(self).wf(),
        ensures
            final(self).wf(),
            release_outcome(old(self)@, final(self)@, id, r),
    {
        match self.find(id) {
            Some(at) => {
                let held: usize = self.owners[at].holders;
                let left: usize = if held > 0 {
                    held - 1
                } else {
                    0
                };
                self.owners.set(at, Owner { id, holders: left });
                Ok(())
            },
            None => Err(ModelError::UnknownHandle),
        }
    }

    /// The cached count is the number of vertices in the buffer, and those
    /// are the packed vertices of the retained models.
    pub proof fn lemma_cache_coherent(&self)
        requires
            self.wf(),
            self@.cached is Some,
        ensures
            self@.buffer.contents() == packed(self@.models),
            self@.cached->0 == packed(self@.models).len(),
    {
    }

    /// Marks the shared buffer as read by an in-flight frame, or as free.
    pub fn set_buffer_claimed(&mut self, claimed: bool)
        requires
            old(self).wf(),
        ensures
            final(self).wf(),
            final(self)@.models == old(self)@.models,
            final(self)@.owners == old(self)@.owners,
            final(self)@.cached == old(self)@.cached,
            final(self)@.issued == old(self)@.issued,
            final(self)@.buffer.claimed() == claimed,
            final(self)@.buffer.contents() == old(self)@.buffer.contents(),
            final(self)@.buffer.limit() == old(self)@.buffer.limit(),
            final(self)@.buffer.writes() == old(self)@.buffer.writes(),
    {
        self.buffer.set_claimed(claimed);
    }

    /// The shared buffer.
    pub fn vertex_buffer(&self) -> (b: &VertexBuffer)
        ensures
            *b == self@.buffer,
    {
        &self.buffer
    }

    /// The cached vertex count, if the buffer is up to date.
    pub fn cached_size(&self) -> (c: Option<usize>)
        ensures
            c == self@.cached,
    {
        self.cached_size
    }

    /// The key the next inserted model will get.
    pub fn next_key(&self) -> (k: u64)
        ensures
            k == self@.issued,
    {
        self.next_id
    }

    /// Number of retained models.
    pub fn len(&self) -> (n: usize)
        ensures
            n == self@.models.len(),
    {
        self.models.len()
    }

    /// Whether the next `write_buffer` has to rewrite the buffer: no count is
    /// cached, or a model without a handle is about to be collected.
    #[verifier::loop_isolation(false)]
    pub fn needs_write(&self) -> (due: bool)
        requires
            self.wf(),
        ensures
            due == (cache_after_gc(self@) is None),
    {
        if self.cached_size.is_none() {
            return true;
        }
        let mut i: usize = 0;
        while i < self.owners.len()
            invariant
                i <= self.owners@.len(),
                forall|j: int| 0 <= j < i ==> (#[trigger] self.owners@[j]).holders > 0,
            decreases self.owners@.len() - i,
        {
            if self.owners[i].holders == 0 {
                proof {
                    lemma_kept_short(
                        model_views(self.models@),
                        self.owners@,
                        self.owners@.len() as int,
                        i as int,
                    );
                }
                return true;
            }
            i = i + 1;
        }
        proof {
            lemma_kept_all(model_views(self.models@), self.owners@, self.owners@.len() as int);
        }
        false
    }

    /// Collection: forgets every model without a handle. The others keep
    /// their order. The cached count is invalidated if any model went.
    pub fn gc(&mut self)
        requires
            old(self).wf(),
        ensures
            final(self).wf(),
            final(self)@.models == kept_models(
                old(self)@.models,
                old(self)@.owners,
                old(self)@.models.len() as int,
            ),
            final(self)@.owners == kept_owners(
                old(self)@.owners,
                old(self)@.owners.len() as int,
            ),
            final(self)@.cached == cache_after_gc(old(self)@),
            final(self)@.issued == old(self)@.issued,
            final(self)@.buffer == old(self)@.buffer,
            forall|id: u64|
                #![trigger tracks(final(self)@.owners, id)]
                tracks(final(self)@.owners, id) <==> is_held(old(self)@.owners, id),
            forall|i: int|
                0 <= i < final(self)@.owners.len() ==> (#[trigger] final(self)@.owners[i]).holders
                    > 0,
    {
        let ghost raw = self.models@;
        let ghost ms = model_views(self.models@);
        let ghost os = self.owners@;
        let before: usize = self.owners.len();
        let mut old_models: Vec<CompiledModel> = Vec::new();
        core::mem::swap(&mut old_models, &mut self.models);
        let mut kept: Vec<CompiledModel> = Vec::new();
        let mut kept_os: Vec<Owner> = Vec::new();
        let mut i: usize = 0;
        for model in it: old_models.into_iter()
            invariant
                it.seq() == raw,
                ms == model_views(raw),
                ms.len() == os.len(),
                ms.len() == before,
                self.owners@ == os,
                i == it.index(),
                keys_ascend(os),
                forall|j: int| 0 <= j < os.len() ==> (#[trigger] os[j]).id < self.next_id,
                model_views(kept@) == kept_models(ms, os, i as int),
                kept_os@ == kept_owners(os, i as int),
                kept@.len() == kept_os@.len(),
                kept@.len() <= i,
                kept@.len() == i ==> kept@ == raw.take(i as int),
                keys_ascend(kept_os@),
                forall|k: int| 0 <= k < kept_os@.len() ==> (#[trigger] kept_os@[k]).holders > 0,
                forall|k: int| 0 <= k < kept_os@.len() ==> (#[trigger] kept_os@[k]).id < self.next_id,
                forall|k: int, j: int|
                    0 <= k < kept_os@.len() && i <= j < os.len() ==> (#[trigger] kept_os@[k]).id < (
                    #[trigger] os[j]).id,
        {
            let owner: Owner = self.owners[i];
            if owner.holders > 0 {
                proof {
                    assert forall|a: int, b: int| 0 <= a < b < kept_os@.len() + 1 implies (
                    #[trigger] kept_os@.push(owner)[a]).id < (#[trigger] kept_os@.push(
                        owner,
                    )[b]).id by {
                        if b < kept_os@.len() {
                            assert(kept_os@[a].id < kept_os@[b].id);
                        } else {
                            assert(kept_os@[a].id < os[i as int].id);
                        }
                    }
                    assert forall|k: int, j: int|
                        0 <= k < kept_os@.len() + 1 && i + 1 <= j < os.len() implies (
                    #[trigger] kept_os@.push(owner)[k]).id < (#[trigger] os[j]).id by {
                        if k < kept_os@.len() {
                            assert(kept_os@[k].id < os[j].id);
                        } else {
                            assert(os[i as int].id < os[j].id);
                        }
                    }
                    if kept@.len() == i {
                        assert(kept@.push(model) =~= raw.take(i + 1));
                    }
                    assert(model_views(kept@.push(model)) =~= model_views(kept@).push(model@));
                }
                kept.push(model);
                kept_os.push(owner);
            }
            i = i + 1;
        }
        proof {
            assert forall|id: u64|
                #![trigger tracks(kept_os@, id)]
                tracks(kept_os@, id) <==> is_held(os, id) by {
                lemma_kept_tracks(os, os.len() as int, id);
                assert(os.take(os.len() as int) =~= os);
            }
            if kept@.len() == raw.len() {
                assert(raw.take(raw.len() as int) =~= raw);
            }
        }
        if kept.len() != before {
            self.cached_size = None;
        }
        self.models = kept;
        self.owners = kept_os;
    }

    /// Brings the shared buffer up to date and returns the number of
    /// vertices to draw; see `write_outcome`.
    #[verifier::loop_isolation(false)]
    pub fn write_buffer(&mut self) -> (r: Result<Option<usize>, ModelError>)
        requires
            old(self).wf(),
        ensures
            final(self).wf(),
            write_outcome(old(self)@, final(self)@, r),
    {
        self.gc();
        if let Some(n) = self.cached_size {
            return Ok(Some(n));
        }
        if self.buffer.is_claimed() {
            return Ok(None);
        }
        let ghost raw = self.models@;
        let ghost ms = model_views(self.models@);
        let order = sorted_visible(&self.models);
        let capacity: usize = self.buffer.capacity();
        let mut total: usize = 0;
        let mut k: usize = 0;
        while k < order.len()
            invariant
                k <= order@.len(),
                self.models@ == raw,
                ms == model_views(raw),
                order@ == draw_order(ms, ms.len() as int),
                forall|j: int| 0 <= j < order@.len() ==> (#[trigger] order@[j]) < ms.len(),
                total == concat_vertices(ms, order@.take(k as int)).len(),
                total <= capacity,
            decreases order@.len() - k,
        {
            let count: usize = self.models[order[k]].vertices.len();
            proof {
                lemma_concat_step(ms, order@, k as int);
                lemma_concat_grows(ms, order@, k + 1);
            }
            if count > capacity - total {
                return Err(ModelError::CapacityExceeded);
            }
            total = total + count;
            k = k + 1;
        }
        assert(order@.take(k as int) =~= order@);
        let mut data: Vec<VertexTex> = Vec::new();
        let mut k: usize = 0;
        while k < order.len()
            invariant
                k <= order@.len(),
                self.models@ == raw,
                ms == model_views(raw),
                forall|j: int| 0 <= j < order@.len() ==> (#[trigger] order@[j]) < ms.len(),
                data@ == concat_vertices(ms, order@.take(k as int)),
            decreases order@.len() - k,
        {
            let at: usize = order[k];
            let ghost before = data@;
            let mut v: usize = 0;
            while v < self.models[at].vertices.len()
                invariant
                    at < ms.len(),
                    self.models@ == raw,
                    ms == model_views(raw),
                    v <= ms[at as int].vertices.len(),
                    data@ == before + ms[at as int].vertices.take(v as int),
                decreases ms[at as int].vertices.len() - v,
            {
                data.push(self.models[at].vertices[v]);
                assert(ms[at as int].vertices.take(v + 1) =~= ms[at as int].vertices.take(
                    v as int,
                ).push(ms[at as int].vertices[v as int]));
                v = v + 1;
            }
            proof {
                assert(ms[at as int].vertices.take(v as int) =~= ms[at as int].vertices);
                lemma_concat_step(ms, order@, k as int);
            }
            k = k + 1;
        }
        assert(order@.take(k as int) =~= order@);
        let done = self.buffer.try_write(data);
        assert(done);
        self.cached_size = Some(total);
        Ok(Some(total))
    }

    /// Whether `mapper` has an entry for the layer of every textured vertex,
    /// which is what `map_tex` asks for.
    pub fn can_map_tex(&self, mapper: &HashMap<i32, i32>) -> (ok: bool)
        ensures
            ok == table_covers(self@.models, mapper@),
    {
        let ghost ms = model_views(self.models@);
        let mut m: usize = 0;
        while m < self.models.len()
            invariant
                m <= self.models@.len(),
                ms == model_views(self.models@),
                forall|a: int, b: int|
                    0 <= a < m && 0 <= b < ms[a].vertices.len() && (#[trigger] ms[a].vertices[b]).tex_layer
                        >= 0 ==> mapper@.contains_key(ms[a].vertices[b].tex_layer),
            decreases self.models@.len() - m,
        {
            let mut k: usize = 0;
            while k < self.models[m].vertices.len()
                invariant
                    m < self.models@.len(),
                    ms == model_views(self.models@),
                    k <= ms[m as int].vertices.len(),
                    forall|j: int|
                        0 <= j < k && (#[trigger] ms[m as int].vertices[j]).tex_layer >= 0
                            ==> mapper@.contains_key(ms[m as int].vertices[j].tex_layer),
                decreases ms[m as int].vertices.len() - k,
            {
                let layer: i32 = self.models[m].vertices[k].tex_layer;
                if layer >= 0 && !mapper.contains_key(&layer) {
                    assert(ms[m as int].vertices[k as int].tex_layer == layer);
                    return false;
                }
                k = k + 1;
            }
            m = m + 1;
        }
        true
    }

    /// `map_tex` where `mapper` covers every textured layer; else nothing
    /// changes. The result says which. Either way every untextured vertex
    /// stays as it is.
    pub fn try_map_tex(&mut self, mapper: HashMap<i32, i32>) -> (done: bool)
        requires
            old(self).wf(),
        ensures
            final(self).wf(),
            done == table_covers(old(self)@.models, mapper@),
            final(self)@ == if done {
                ModelmanView {
                    models: remap_models(old(self)@.models, mapper@),
                    cached: None,
                    ..old(self)@
                }
            } else {
                old(self)@
            },
            final(self)@.models.len() == old(self)@.models.len(),
            forall|m: int, k: int|
                0 <= m < old(self)@.models.len() && 0 <= k < old(self)@.models[m].vertices.len() && (
                #[trigger] old(self)@.models[m].vertices[k]).tex_layer < 0
                    ==> final(self)@.models[m].vertices.len() == old(self)@.models[m].vertices.len()
                    && final(self)@.models[m].vertices[k] == old(self)@.models[m].vertices[k],
    {
        if !self.can_map_tex(&mapper) {
            return false;
        }
        self.map_tex(mapper);
        true
    }

    /// Passes the layer of every textured vertex of every retained model
    /// through `mapper` and invalidates the cached count. Untextured
    /// vertices are left alone.
    pub fn map_tex(&mut self, mapper: HashMap<i32, i32>)
        requires
            old(self).wf(),
            table_covers(old(self)@.models, mapper@),
        ensures
            final(self).wf(),
            final(self)@.owners == old(self)@.owners,
            final(self)@.issued == old(self)@.issued,
            final(self)@.buffer == old(self)@.buffer,
            final(self)@.cached is None,
            final(self)@.models == remap_models(old(self)@.models, mapper@),
    {
        let ghost before = self.models@;
        let mut m: usize = 0;
        while m < self.models.len()
            invariant
                m <= self.models@.len(),
                self.models@.len() == before.len(),
                self.owners@ == old(self).owners@,
                self.next_id == old(self).next_id,
                self.buffer == old(self).buffer,
                table_covers(model_views(before), mapper@),
                forall|a: int|
                    0 <= a < before.len() ==> {
                        &&& (#[trigger] self.models@[a]).visible == before[a].visible
                        &&& self.models@[a].z == before[a].z
                        &&& self.models@[a].vertices@.len() == before[a].vertices@.len()
                    },
                forall|a: int| m <= a < before.len() ==> #[trigger] self.models@[a] == before[a],
                forall|a: int, b: int|
                    0 <= a < m && 0 <= b < before[a].vertices@.len()
                        ==> #[trigger] self.models@[a].vertices@[b] == remap_vertex(
                        before[a].vertices@[b],
                        mapper@,
                    ),
            decreases self.models@.len() - m,
        {
            let mut k: usize = 0;
            while k < self.models[m].vertices.len()
                invariant
                    m < self.models@.len(),
                    self.models@.len() == before.len(),
                    self.owners@ == old(self).owners@,
                    self.next_id == old(self).next_id,
                    self.buffer == old(self).buffer,
                    table_covers(model_views(before), mapper@),
                    k <= before[m as int].vertices@.len(),
                    forall|a: int|
                        0 <= a < before.len() ==> {
                            &&& (#[trigger] self.models@[a]).visible == before[a].visible
                            &&& self.models@[a].z == before[a].z
                            &&& self.models@[a].vertices@.len() == before[a].vertices@.len()
                        },
                    forall|a: int| m < a < before.len() ==> #[trigger] self.models@[a] == before[a],
                    forall|a: int, b: int|
                        0 <= a < m && 0 <= b < before[a].vertices@.len()
                            ==> #[trigger] self.models@[a].vertices@[b] == remap_vertex(
                            before[a].vertices@[b],
                            mapper@,
                        ),
                    forall|b: int|
                        0 <= b < k ==> #[trigger] self.models@[m as int].vertices@[b]
                            == remap_vertex(before[m as int].vertices@[b], mapper@),
                    forall|b: int|
                        k <= b < before[m as int].vertices@.len()
                            ==> #[trigger] self.models@[m as int].vertices@[b]
                            == before[m as int].vertices@[b],
                decreases before[m as int].vertices@.len() - k,
            {
                let layer: i32 = self.models[m].vertices[k].tex_layer;
                if layer >= 0 {
                    assert(model_views(before)[m as int].vertices[k as int].tex_layer == layer);
                    let slot = mapper.get(&layer);
                    let slot: i32 = *slot.unwrap();
                    self.models[m].vertices[k].tex_layer = slot;
                }
                k = k + 1;
            }
            m = m + 1;
        }
        self.cached_size = None;
        proof {
            let now = model_views(self.models@);
            let want = remap_models(model_views(before), mapper@);
            assert forall|a: int| 0 <= a < now.len() implies now[a] == want[a] by {
                assert(self.models@[a].visible == before[a].visible);
                assert(now[a].vertices =~= want[a].vertices);
            }
            assert(now =~= want);
        }
    }
}

/// The draw order of `models`, by insertion into a sorted list.
fn sorted_visible(models: &Vec<CompiledModel>) -> (order: Vec<usize>)
    ensures
        order@ == draw_order(model_views(models@), models@.len() as int),
        forall|j: int| 0 <= j < order@.len() ==> (#[trigger] order@[j]) < models@.len(),
{
    let ghost ms = model_views(models@);
    let mut order: Vec<usize> = Vec::new();
    let mut i: usize = 0;
    while i < models.len()
        invariant
            i <= models@.len(),
            ms == model_views(models@),
            order@ == draw_order(ms, i as int),
            forall|j: int| 0 <= j < order@.len() ==> (#[trigger] order@[j]) < i,
        decreases models@.len() - i,
    {
        if models[i].visible {
            let z: i32 = models[i].z;
            let mut pos: usize = order.len();
            while pos > 0 && models[order[pos - 1]].z > z
                invariant
                    pos <= order@.len(),
                    i < models@.len(),
                    ms == model_views(models@),
                    z == ms[i as int].z,
                    forall|j: int| 0 <= j < order@.len() ==> (#[trigger] order@[j]) < i,
                    forall|j: int|
                        pos <= j < order@.len() ==> ms[(#[trigger] order@[j]) as int].z > z,
                decreases pos,
            {
                pos = pos - 1;
            }
            proof {
                lemma_insert_at(order@, ms, i, pos as int);
            }
            order.insert(pos, i);
        }
        i = i + 1;
    }
    order
}

/// A collection retains exactly the keys that still had a handle.
pub proof fn lemma_kept_tracks(os: Seq<Owner>, n: int, id: u64)
    requires
        0 <= n <= os.len(),
    ensures
        tracks(kept_owners(os, n), id) <==> is_held(os.take(n), id),
    decreases n,
{
    let kept = kept_owners(os, n);
    if n > 0 {
        lemma_kept_tracks(os, n - 1, id);
        let prev = kept_owners(os, n - 1);
        if tracks(kept, id) {
            let k = choose|k: int| 0 <= k < kept.len() && (#[trigger] kept[k]).id == id;
            if k < prev.len() {
                assert(prev[k].id == id);
                assert(tracks(prev, id));
                let j = choose|j: int|
                    0 <= j < os.take(n - 1).len() && (#[trigger] os.take(n - 1)[j]).id == id
                        && os.take(n - 1)[j].holders > 0;
                assert(os.take(n)[j].id == id);
            } else {
                assert(os.take(n)[n - 1].id == id);
            }
            assert(is_held(os.take(n), id));
        }
        if is_held(os.take(n), id) {
            let j = choose|j: int|
                0 <= j < os.take(n).len() && (#[trigger] os.take(n)[j]).id == id && os.take(
                    n,
                )[j].holders > 0;
            if j < n - 1 {
                assert(os.take(n - 1)[j].id == id);
                assert(is_held(os.take(n - 1), id));
                let k = choose|k: int| 0 <= k < prev.len() && (#[trigger] prev[k]).id == id;
                assert(kept[k].id == id);
            } else {
                assert(kept[kept.len() - 1].id == id);
            }
            assert(tracks(kept, id));
        }
    } else {
        assert(!tracks(kept, id));
        assert(!is_held(os.take(n), id));
    }
}

/// Where every model still has a handle, a collection changes nothing.
pub proof fn lemma_kept_all(ms: Seq<CompiledModelView>, os: Seq<Owner>, n: int)
    requires
        0 <= n <= os.len(),
        os.len() == ms.len(),
        forall|i: int| 0 <= i < n ==> (#[trigger] os[i]).holders > 0,
    ensures
        kept_owners(os, n) == os.take(n),
        kept_models(ms, os, n) == ms.take(n),
    decreases n,
{
    if n > 0 {
        lemma_kept_all(ms, os, n - 1);
        assert(os[n - 1].holders > 0);
        assert(os.take(n - 1).push(os[n - 1]) =~= os.take(n));
        assert(ms.take(n - 1).push(ms[n - 1]) =~= ms.take(n));
    } else {
        assert(os.take(n) =~= Seq::<Owner>::empty());
        assert(ms.take(n) =~= Seq::<CompiledModelView>::empty());
    }
}

/// A collection keeps one owner record per model, each with a handle left.
pub proof fn lemma_kept_shape(ms: Seq<CompiledModelView>, os: Seq<Owner>, n: int)
    requires
        0 <= n,
    ensures
        kept_models(ms, os, n).len() == kept_owners(os, n).len(),
        kept_owners(os, n).len() <= n,
        forall|i: int|
            0 <= i < kept_owners(os, n).len() ==> (#[trigger] kept_owners(os, n)[i]).holders > 0,
    decreases n,
{
    if n > 0 {
        lemma_kept_shape(ms, os, n - 1);
    }
}

/// GC liveness: after `write_buffer`, a model whose handles were all
/// released before the call is no longer retained.
pub proof fn lemma_write_collects(
    pre: ModelmanView,
    post: ModelmanView,
    r: Result<Option<usize>, ModelError>,
    id: u64,
)
    requires
        write_outcome(pre, post, r),
        is_dropped(pre.owners, id),
    ensures
        !tracks(post.owners, id),
{
    let os = pre.owners;
    lemma_kept_tracks(os, os.len() as int, id);
    assert(os.take(os.len() as int) =~= os);
}

/// Cache fast path: a second `write_buffer` right after one that returned a
/// count returns the same count and leaves the models, the handles and the
/// buffer, its write counter included, as they are.
pub proof fn lemma_cache_fast_path(
    first: ModelmanView,
    second: ModelmanView,
    third: ModelmanView,
    n: usize,
    r: Result<Option<usize>, ModelError>,
)
    requires
        first.valid(),
        write_outcome(first, second, Ok(Some(n))),
        write_outcome(second, third, r),
    ensures
        r == Ok::<Option<usize>, ModelError>(Some(n)),
        third.models == second.models,
        third.owners == second.owners,
        third.cached == second.cached,
        third.buffer == second.buffer,
{
    let ms = second.models;
    let os = second.owners;
    lemma_kept_shape(first.models, first.owners, first.owners.len() as int);
    assert(second.cached == Some(n));
    lemma_kept_all(ms, os, os.len() as int);
    assert(ms.take(ms.len() as int) =~= ms);
    assert(os.take(os.len() as int) =~= os);
}

/// Remap correctness: passing the models through a slot table gives every
/// textured vertex the table's image of its old layer and leaves every
/// untextured vertex, and everything else about a vertex, as it was.
pub proof fn lemma_remap_layers(ms: Seq<CompiledModelView>, table: Map<i32, i32>, m: int, k: int)
    requires
        0 <= m < ms.len(),
        0 <= k < ms[m].vertices.len(),
    ensures
        remap_models(ms, table).len() == ms.len(),
        remap_models(ms, table)[m].visible == ms[m].visible,
        remap_models(ms, table)[m].z == ms[m].z,
        remap_models(ms, table)[m].vertices.len() == ms[m].vertices.len(),
        ({
            let old_v = ms[m].vertices[k];
            let new_v = remap_models(ms, table)[m].vertices[k];
            &&& old_v.tex_layer >= 0 ==> new_v.tex_layer == table[old_v.tex_layer]
            &&& old_v.tex_layer < 0 ==> new_v == old_v
            &&& new_v.pos == old_v.pos
            &&& new_v.color == old_v.color
            &&& new_v.tex_coord == old_v.tex_coord
        }),
{
}

/// A collection that meets a model without a handle keeps fewer models
/// than there were.
pub proof fn lemma_kept_short(ms: Seq<CompiledModelView>, os: Seq<Owner>, n: int, at: int)
    requires
        0 <= at < n,
        os[at].holders == 0,
    ensures
        kept_models(ms, os, n).len() < n,
    decreases n,
{
    lemma_kept_shape(ms, os, n - 1);
    if at < n - 1 {
        lemma_kept_short(ms, os, n - 1, at);
    }
}

} // verus!
