use crate::model::compiled_model::CompiledModel;
use crate::model::modelman::{
    is_dropped, position, release_outcome, set_visibility_outcome, set_z_outcome, share_outcome,
    tracks, ModelError, Modelman, Owner,
};
use vstd::prelude::*;

verus! {

/// A caller's handle on one model held by a `Modelman`.
///
/// The store counts the handles that exist for each model; a model whose last
/// handle was released is dropped at the next collection. A handle is not
/// `Clone`: `Modelman::share` makes a second one and counts it.
#[derive(Debug, PartialEq, Eq)]
pub struct ModelRef {
    id: u64,
}

impl ModelRef {
    /// The number the store knows the model by.
    pub closed spec fn key(&self) -> u64 {
        self.id
    }

    pub(crate) fn from_key(id: u64) -> (h: Self)
        ensures
            h.key() == id,
    {
        ModelRef { id }
    }

    /// The number the store knows the model by.
    pub fn id(&self) -> (id: u64)
        ensures
            id == self.key(),
    {
        self.id
    }

    /// Hands `compiled_model` to `man` and returns the first handle on it.
    pub fn new(man: &mut Modelman, compiled_model: CompiledModel) -> (h: Self)
        requires
            old(man).wf(),
            old(man)@.issued < u64::MAX,
        ensures
            final(man).wf(),
            h.key() == old(man)@.issued,
            final(man)@.models == old(man)@.models.push(compiled_model@),
            final(man)@.owners == old(man)@.owners.push(
                Owner { id: old(man)@.issued as u64, holders: 1 },
            ),
            final(man)@.issued == old(man)@.issued + 1,
            final(man)@.cached is None,
            final(man)@.buffer == old(man)@.buffer,
    {
        man.adopt(compiled_model)
    }

    /// Sets the model's draw order; see `set_z_outcome`.
    pub fn set_z(&self, man: &mut Modelman, z: i32) -> (r: Result<(), ModelError>)
        requires
            old(man).wf(),
        ensures
            final(man).wf(),
            set_z_outcome(old(man)@, final(man)@, self.key(), z, r),
    {
        man.set_z(self.id, z)
    }

    /// Shows or hides the model; see `set_visibility_outcome`.
    pub fn set_visibility(&self, man: &mut Modelman, visible: bool) -> (r: Result<(), ModelError>)
        requires
            old(man).wf(),
        ensures
            final(man).wf(),
            set_visibility_outcome(old(man)@, final(man)@, self.key(), visible, r),
    {
        man.set_visibility(self.id, visible)
    }

    /// Whether `man` counts no handle on the model: true once every handle
    /// was released, and for a model `man` does not hold. A handle that was
    /// not released is counted, so for it the answer is `false`.
    pub fn dropped(&self, man: &Modelman) -> (d: bool)
        requires
            man.wf(),
        ensures
            d == is_dropped(man@.owners, self.key()),
    {
        man.dropped(self.id)
    }

    /// The model behind the handle, if `man` still retains it.
    pub fn borrow<'a>(&self, man: &'a Modelman) -> (m: Option<&'a CompiledModel>)
        requires
            man.wf(),
        ensures
            m is Some <==> tracks(man@.owners, self.key()),
            m is Some ==> (*m->0)@ == man@.models[position(man@.owners, self.key())],
    {
        man.get(self.id)
    }

    /// A second handle on the same model; see `share_outcome`.
    pub fn share(&self, man: &mut Modelman) -> (r: Result<ModelRef, ModelError>)
        requires
            old(man).wf(),
        ensures
            final(man).wf(),
            share_outcome(old(man)@, final(man)@, self.key(), r),
    {
        man.share(self.id)
    }

    /// Gives the handle up; see `release_outcome`.
    pub fn release(self, man: &mut Modelman) -> (r: Result<(), ModelError>)
        requires
            old(man).wf(),
        ensures
            final(man).wf(),
            release_outcome(old(man)@, final(man)@, self.key(), r),
    {
        man.release(self.id)
    }
}

} // verus!
