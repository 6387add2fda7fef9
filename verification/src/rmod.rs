use crate::model::modelman::{
    remap_models, table_covers, write_outcome, ModelError, Modelman, ModelmanView, BUFSIZE,
};
use crate::texman::{lemma_compacted_valid, remap_table, Texman, TexmanView};
use vstd::prelude::*;

verus! {

/// Why a frame could not be planned.
#[derive(Clone, Copy, Debug, PartialEq, Eq)]
pub enum FrameError {
    /// Some textured vertex refers to a slot that the compaction purged.
    UnmappedLayer,
    /// The visible models together exceed the shared vertex buffer.
    CapacityExceeded,
}

/// What to do about the texture array before drawing: rebuild the array of
/// `count` elements, and with `resize` also the pipeline, whose binding size
/// is fixed when it is created.
#[derive(Clone, Copy, Debug, PartialEq, Eq)]
pub struct TexturePlan {
    pub count: u32,
    pub resize: bool,
}

/// The one draw call of a frame.
#[derive(Clone, Copy, Debug, PartialEq, Eq)]
pub struct DrawCall {
    pub vertex_count: u32,
    pub instance_count: u32,
}

/// The outcome of reconciling both caches for one frame.
#[derive(Clone, Copy, Debug, PartialEq, Eq)]
pub struct FramePlan {
    /// The texture work owed before the draw, if any.
    pub textures: Option<TexturePlan>,
    /// The draw call; `None` skips the frame.
    pub draw: Option<DrawCall>,
}

/// The two caches of the renderer, the texture count its pipeline was last
/// built for, and whether a compaction has run whose texture work no plan
/// has handed out yet.
pub struct Rmod<V> {
    pub texman: Texman<V>,
    pub modelman: Modelman,
    pub tex_len: usize,
    pub owed: bool,
}

/// What an `Rmod` is to the contracts of this crate.
pub struct RmodView<V> {
    pub texman: TexmanView<V>,
    pub modelman: ModelmanView,
    /// The texture count the pipeline was last built for.
    pub sized_for: nat,
    /// Whether the texture array is out of date since an earlier frame.
    pub owed: bool,
}

impl<V> View for Rmod<V> {
    type V = RmodView<V>;

    open spec fn view(&self) -> RmodView<V> {
        RmodView {
            texman: self.texman@,
            modelman: self.modelman@,
            sized_for: self.tex_len as nat,
            owed: self.owed,
        }
    }
}

impl<V> RmodView<V> {
    /// Both caches are valid and every vertex count fits a draw call.
    pub open spec fn valid(self) -> bool {
        &&& self.texman.valid()
        &&& self.modelman.valid()
        &&& self.modelman.buffer.limit() <= u32::MAX
    }

    /// The texture table as the frame leaves it: compacted if it was dirty.
    pub open spec fn frame_texman(self) -> TexmanView<V> {
        if self.texman.dirty {
            self.texman.compacted()
        } else {
            self.texman
        }
    }

    /// The old-to-new slot table of the frame's compaction.
    pub open spec fn frame_table(self) -> Map<i32, i32> {
        remap_table(self.texman.pending, self.texman.next_slot)
    }

    /// Whether the frame's compaction strands a textured vertex.
    pub open spec fn strands_vertex(self) -> bool {
        self.texman.dirty && !table_covers(self.modelman.models, self.frame_table())
    }

    /// The model store after the frame's texture step and before its
    /// buffer step: remapped, with the cached count gone, if the table was
    /// dirty.
    pub open spec fn frame_models(self) -> ModelmanView {
        if self.texman.dirty {
            ModelmanView {
                models: remap_models(self.modelman.models, self.frame_table()),
                cached: None,
                ..self.modelman
            }
        } else {
            self.modelman
        }
    }

    /// Whether the texture array is out of date in this frame: it was
    /// already, or the table is compacted now.
    pub open spec fn frame_owed(self) -> bool {
        self.owed || self.texman.dirty
    }

    /// The texture work the frame hands out if it comes to a plan: none
    /// unless the array is out of date and textures are left.
    pub open spec fn frame_textures(self) -> Option<TexturePlan> {
        let count = self.frame_texman().views.len();
        if self.frame_owed() && count > 0 {
            Some(TexturePlan { count: count as u32, resize: count != self.sized_for })
        } else {
            None
        }
    }
}

/// How `build_command` takes the caches from `pre` to `post` with result `r`.
///
/// A dirty texture table is compacted and the models are passed through the
/// slot table; a vertex stranded by the compaction is an error and leaves
/// the models as they were. With no texture left the frame is skipped.
/// Otherwise the vertex buffer is brought up to date as `write_outcome`
/// says, and the plan holds the texture work and one draw call over the
/// vertex count, unless the buffer was claimed. Texture work that an error
/// kept back stays owed and goes into the next plan.
pub open spec fn frame_outcome<V>(
    pre: RmodView<V>,
    post: RmodView<V>,
    r: Result<FramePlan, FrameError>,
) -> bool {
    let count = pre.frame_texman().views.len();
    &&& post.texman == pre.frame_texman()
    &&& if pre.strands_vertex() {
        &&& r == Err::<FramePlan, FrameError>(FrameError::UnmappedLayer)
        &&& post.modelman == pre.modelman
        &&& post.sized_for == pre.sized_for
        &&& post.owed
    } else if count == 0 {
        &&& r == Ok::<FramePlan, FrameError>(FramePlan { textures: None, draw: None })
        &&& post.modelman == pre.frame_models()
        &&& post.sized_for == pre.sized_for
        &&& post.owed == pre.frame_owed()
    } else {
        exists|w: Result<Option<usize>, ModelError>| #[trigger]
            write_outcome(pre.frame_models(), post.modelman, w) && r == frame_result(
                pre.frame_textures(),
                w,
            ) && post.owed == (pre.frame_owed() && w is Err) && post.sized_for == if pre.frame_owed()
                && w is Ok {
                count
            } else {
                pre.sized_for
            }
    }
}

/// The frame's result for the outcome `w` of the buffer step.
pub open spec fn frame_result(
    textures: Option<TexturePlan>,
    w: Result<Option<usize>, ModelError>,
) -> Result<FramePlan, FrameError> {
    match w {
        Err(_) => Err(FrameError::CapacityExceeded),
        Ok(None) => Ok(FramePlan { textures, draw: None }),
        Ok(Some(n)) => Ok(
            FramePlan {
                textures,
                draw: Some(DrawCall { vertex_count: n as u32, instance_count: 1 }),
            },
        ),
    }
}

impl<V> Rmod<V> {
    /// Both caches are valid and every vertex count fits a draw call.
    pub open spec fn wf(&self) -> bool {
        self@.valid()
    }

    /// Empty caches, the pipeline sized for one texture.
    pub fn new() -> (r: Self)
        ensures
            r.wf(),
            r@.texman == Texman::<V>::new_view(),
            r@.modelman.models.len() == 0,
            r@.modelman.owners.len() == 0,
            r@.modelman.cached is None,
            r@.modelman.issued == 0,
            r@.modelman.buffer.contents().len() == 0,
            r@.modelman.buffer.limit() == BUFSIZE,
            !r@.modelman.buffer.claimed(),
            r@.modelman.buffer.writes() == 0,
            r@.sized_for == 1,
            !r@.owed,
    {
        Rmod { texman: Texman::new(), modelman: Modelman::new(), tex_len: 1, owed: false }
    }

    /// Empty caches over a vertex buffer of `capacity` vertices, the
    /// pipeline sized for one texture.
    pub fn with_capacity(capacity: u32) -> (r: Self)
        ensures
            r.wf(),
            r@.texman == Texman::<V>::new_view(),
            r@.modelman.models.len() == 0,
            r@.modelman.owners.len() == 0,
            r@.modelman.cached is None,
            r@.modelman.issued == 0,
            r@.modelman.buffer.contents().len() == 0,
            r@.modelman.buffer.limit() == capacity,
            !r@.modelman.buffer.claimed(),
            r@.modelman.buffer.writes() == 0,
            r@.sized_for == 1,
            !r@.owed,
    {
        Rmod {
            texman: Texman::new(),
            modelman: Modelman::with_capacity(capacity as usize),
            tex_len: 1,
            owed: false,
        }
    }

    /// Reconciles both caches for one frame and says what to rebuild and
    /// what to draw; see `frame_outcome`.
    pub fn build_command(&mut self) -> (r: Result<FramePlan, FrameError>)
        requires
            old(self).wf(),
        ensures
            final(self).wf(),
            frame_outcome(old(self)@, final(self)@, r),
    {
        if self.texman.get_dirty() {
            proof {
                lemma_compacted_valid(self@.texman);
            }
            let (_, update_mapper) = self.texman.tex_len();
            self.owed = true;
            if !self.modelman.try_map_tex(update_mapper) {
                return Err(FrameError::UnmappedLayer);
            }
        }
        let count: u32 = match self.texman.compile_set() {
            Some(set) => set.0,
            None => {
                return Ok(FramePlan { textures: None, draw: None });
            },
        };
        let ghost mid = self.modelman@;
        let w = self.modelman.write_buffer();
        assert(write_outcome(mid, self.modelman@, w));
        let drawn = match w {
            Err(_) => {
                return Err(FrameError::CapacityExceeded);
            },
            Ok(drawn) => drawn,
        };
        let mut textures: Option<TexturePlan> = None;
        if self.owed {
            textures = Some(TexturePlan { count, resize: count as usize != self.tex_len });
            self.tex_len = count as usize;
            self.owed = false;
        }
        match drawn {
            None => Ok(FramePlan { textures, draw: None }),
            Some(n) => Ok(
                FramePlan {
                    textures,
                    draw: Some(DrawCall { vertex_count: n as u32, instance_count: 1 }),
                },
            ),
        }
    }
}

} // verus!
