use crate::vertex::VertexTex;
use vstd::prelude::*;

verus! {

/// The shared vertex buffer: fixed capacity, rewritten from offset 0, and
/// unavailable for writing while a submitted frame still reads from it.
pub struct VertexBuffer {
    data: Vec<VertexTex>,
    capacity: usize,
    claimed: bool,
    writes: u64,
}

impl VertexBuffer {
    #[verifier::type_invariant]
    spec fn fits(self) -> bool {
        self.data@.len() <= self.capacity
    }

    /// The vertices last written.
    pub closed spec fn contents(&self) -> Seq<VertexTex> {
        self.data@
    }

    /// The most vertices the buffer can hold.
    pub closed spec fn limit(&self) -> nat {
        self.capacity as nat
    }

    /// Whether an in-flight frame holds the buffer.
    pub closed spec fn claimed(&self) -> bool {
        self.claimed
    }

    /// How often the buffer has been rewritten (it stops counting at
    /// `u64::MAX`).
    pub closed spec fn writes(&self) -> nat {
        self.writes as nat
    }

    /// An empty, unclaimed buffer for up to `capacity` vertices.
    pub fn new(capacity: usize) -> (b: Self)
        ensures
            b.contents() == Seq::<VertexTex>::empty(),
            b.limit() == capacity,
            !b.claimed(),
            b.writes() == 0,
    {
        VertexBuffer { data: Vec::new(), capacity, claimed: false, writes: 0 }
    }

    /// Marks the buffer as read by an in-flight frame, or as free again.
    pub fn set_claimed(&mut self, claimed: bool)
        ensures
            final(self).claimed() == claimed,
            final(self).contents() == old(self).contents(),
            final(self).limit() == old(self).limit(),
            final(self).writes() == old(self).writes(),
    {
        proof {
            use_type_invariant(&*self);
        }
        self.claimed = claimed;
    }

    pub fn is_claimed(&self) -> (c: bool)
        ensures
            c == self.claimed(),
    {
        self.claimed
    }

    pub fn capacity(&self) -> (c: usize)
        ensures
            c == self.limit(),
    {
        self.capacity
    }

    pub fn write_count(&self) -> (w: u64)
        ensures
            w == self.writes(),
    {
        self.writes
    }

    /// The vertices last written, never more than the capacity.
    pub fn vertices(&self) -> (v: &Vec<VertexTex>)
        ensures
            v@ == self.contents(),
            v@.len() <= self.limit(),
    {
        proof {
            use_type_invariant(self);
        }
        &self.data
    }

    /// Replaces the contents with `vertices`, unless the buffer is claimed
    /// or `vertices` exceeds the capacity; then nothing changes.
    pub fn try_write(&mut self, vertices: Vec<VertexTex>) -> (done: bool)
        ensures
            done == (!old(self).claimed() && vertices@.len() <= old(self).limit()),
            final(self).claimed() == old(self).claimed(),
            final(self).limit() == old(self).limit(),
            final(self).contents() == if done {
                vertices@
            } else {
                old(self).contents()
            },
            final(self).writes() == if done && old(self).writes() < u64::MAX {
                old(self).writes() + 1
            } else {
                old(self).writes()
            },
    {
        proof {
            use_type_invariant(&*self);
        }
        if self.claimed || vertices.len() > self.capacity {
            return false;
        }
        if self.writes < u64::MAX {
            self.writes = self.writes + 1;
        }
        self.data = vertices;
        true
    }
}

} // verus!
