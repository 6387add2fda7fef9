use crate::model::cmodel::Model;
use crate::model::compile::{compiled_vertices, skipped_faces};
use crate::model::compiled_model::CompiledModelView;
use crate::model::model_ref::ModelRef;
use crate::model::modelman::{ModelmanView, Owner, BUFSIZE};
use crate::rmod::{frame_outcome, FrameError, FramePlan, Rmod, RmodView};
use crate::texman::{TexError, Texman};
use vstd::prelude::*;

verus! {

/// The external id of the fallback texture every renderer starts with.
pub const FALLBACK_TEX: i32 = -2;

/// What asking the swapchain for the next image came to.
#[derive(Clone, Copy, Debug, PartialEq, Eq)]
pub enum Acquired {
    /// An image is ready to be drawn into.
    Image,
    /// The swapchain no longer matches the surface.
    OutOfDate,
}

/// The renderer's state between frames: both caches and the flag that says
/// the swapchain has to be recreated before the next frame.
pub struct Renderer<V> {
    pub rmod: Rmod<V>,
    dirty: bool,
}

/// What a renderer is to the contracts of this crate.
pub struct RendererView<V> {
    pub rmod: RmodView<V>,
    /// Whether the swapchain has to be recreated.
    pub stale: bool,
}

impl<V> View for Renderer<V> {
    type V = RendererView<V>;

    closed spec fn view(&self) -> RendererView<V> {
        RendererView { rmod: self.rmod@, stale: self.dirty }
    }
}

/// How `render` takes a renderer from `pre` to `post` with result `r`: an
/// out-of-date swapchain is marked stale and the frame is left alone;
/// otherwise the frame is planned as `frame_outcome` says.
pub open spec fn render_outcome<V>(
    pre: RendererView<V>,
    post: RendererView<V>,
    acquired: Acquired,
    r: Result<Option<FramePlan>, FrameError>,
) -> bool {
    match acquired {
        Acquired::OutOfDate => {
            &&& r == Ok::<Option<FramePlan>, FrameError>(None)
            &&& post.stale
            &&& post.rmod == pre.rmod
        },
        Acquired::Image => {
            &&& post.stale == pre.stale
            &&& exists|plan: Result<FramePlan, FrameError>| #[trigger]
                frame_outcome(pre.rmod, post.rmod, plan) && r == match plan {
                    Ok(p) => Ok::<Option<FramePlan>, FrameError>(Some(p)),
                    Err(e) => Err(e),
                }
        },
    }
}

impl<V> Renderer<V> {
    /// Both caches are valid.
    pub open spec fn wf(&self) -> bool {
        self@.rmod.valid()
    }

    /// A renderer that holds `fallback` under `FALLBACK_TEX` and nothing
    /// else.
    pub fn new(fallback: V) -> (r: Self)
        ensures
            r.wf(),
            !r@.stale,
            r@.rmod.texman == Texman::<V>::new_view().uploaded(fallback, FALLBACK_TEX),
            r@.rmod.modelman.models.len() == 0,
            r@.rmod.modelman.owners.len() == 0,
            r@.rmod.modelman.cached is None,
            r@.rmod.modelman.issued == 0,
            r@.rmod.modelman.buffer.contents().len() == 0,
            r@.rmod.modelman.buffer.limit() == BUFSIZE,
            !r@.rmod.modelman.buffer.claimed(),
            r@.rmod.modelman.buffer.writes() == 0,
            r@.rmod.sized_for == 1,
            !r@.rmod.owed,
    {
        let mut result = Renderer { rmod: Rmod::new(), dirty: false };
        result.rmod.texman.upload(fallback, FALLBACK_TEX);
        result
    }

    /// Stores `view` under the external id `id`; see `Texman::upload`.
    pub fn upload_tex(&mut self, view: V, id: i32)
        requires
            old(self).wf(),
            old(self)@.rmod.texman.next_slot < i32::MAX,
        ensures
            final(self).wf(),
            final(self)@ == (RendererView {
                rmod: RmodView {
                    texman: old(self)@.rmod.texman.uploaded(view, id),
                    ..old(self)@.rmod
                },
                ..old(self)@
            }),
    {
        self.rmod.texman.upload(view, id);
    }

    /// Drops the texture known as `outer`; see `Texman::remove`.
    pub fn remove_tex(&mut self, outer: i32) -> (r: Result<(), TexError>)
        requires
            old(self).wf(),
        ensures
            final(self).wf(),
            r is Ok <==> old(self)@.rmod.texman.mapping.contains_key(outer),
            r is Err ==> r == Err::<(), TexError>(TexError::NotFound),
            final(self)@ == (RendererView {
                rmod: RmodView { texman: old(self)@.rmod.texman.removed(outer), ..old(self)@.rmod },
                ..old(self)@
            }),
    {
        self.rmod.texman.remove(outer)
    }

    /// Marks the swapchain as stale, as after a resize.
    pub fn damage(&mut self)
        ensures
            final(self)@ == (RendererView { stale: true, ..old(self)@ }),
    {
        self.dirty = true;
    }

    /// Whether the swapchain has to be recreated before this frame; asking
    /// clears the mark.
    pub fn take_damage(&mut self) -> (stale: bool)
        ensures
            stale == old(self)@.stale,
            final(self)@ == (RendererView { stale: false, ..old(self)@ }),
    {
        let stale = self.dirty;
        self.dirty = false;
        stale
    }

    /// Compiles `model` against the current texture mapping and retains the
    /// result; see `Modelman::insert`.
    pub fn insert_model(&mut self, model: &Model) -> (r: (ModelRef, usize))
        requires
            old(self).wf(),
            old(self)@.rmod.modelman.issued < u64::MAX,
        ensures
            final(self).wf(),
            final(self)@.stale == old(self)@.stale,
            final(self)@.rmod.texman == old(self)@.rmod.texman,
            final(self)@.rmod.sized_for == old(self)@.rmod.sized_for,
            r.0.key() == old(self)@.rmod.modelman.issued,
            r.1 == skipped_faces(
                *model,
                old(self)@.rmod.texman.mapping,
                model.faces@.len() as int,
            ),
            final(self)@.rmod.modelman == (ModelmanView {
                models: old(self)@.rmod.modelman.models.push(
                    CompiledModelView {
                        visible: true,
                        z: 0,
                        vertices: compiled_vertices(
                            *model,
                            old(self)@.rmod.texman.mapping,
                            model.faces@.len() as int,
                        ),
                    },
                ),
                owners: old(self)@.rmod.modelman.owners.push(
                    Owner { id: old(self)@.rmod.modelman.issued as u64, holders: 1 },
                ),
                cached: None,
                issued: old(self)@.rmod.modelman.issued + 1,
                buffer: old(self)@.rmod.modelman.buffer,
            }),
    {
        self.rmod.modelman.insert(model, self.rmod.texman.mapper())
    }

    /// One frame, given what acquiring the next swapchain image came to;
    /// see `render_outcome`. `Ok(None)` means that nothing is to be
    /// recorded this frame.
    pub fn render(&mut self, acquired: Acquired) -> (r: Result<Option<FramePlan>, FrameError>)
        requires
            old(self).wf(),
        ensures
            final(self).wf(),
            render_outcome(old(self)@, final(self)@, acquired, r),
    {
        match acquired {
            Acquired::OutOfDate => {
                self.dirty = true;
                Ok(None)
            },
            Acquired::Image => {
                let plan = self.rmod.build_command();
                assert(frame_outcome(old(self)@.rmod, self@.rmod, plan));
                match plan {
                    Ok(p) => Ok(Some(p)),
                    Err(e) => Err(e),
                }
            },
        }
    }
}

} // verus!
