use std::collections::HashMap;
use vstd::prelude::*;
use vstd::std_specs::hash::spec_hash_map_iter;
use vstd::std_specs::iter::IteratorSpec;

verus! {

broadcast use vstd::std_specs::hash::group_hash_axioms;

/// Why a texture operation was refused.
#[derive(Clone, Copy, Debug, PartialEq, Eq)]
pub enum TexError {
    /// The external id has no live mapping.
    NotFound,
}

/// Texture slot table.
///
/// Callers name textures by an external id of their own choosing; the table
/// assigns each upload the next internal slot, which is the texture's index in
/// the array bound for drawing. Removal only marks a slot. `tex_len` is the
/// single point where marked slots are purged and the survivors renumbered.
///
/// `V` is the texture-view resource held per slot; the table stores and
/// reorders views and never looks inside one.
pub struct Texman<V> {
    mapper: HashMap<i32, i32>,
    remove_list: Vec<i32>,
    id_alloc: i32,
    image_views: Vec<V>,
    dirty: bool,
}

/// Whether `slot` is not marked for removal.
pub open spec fn slot_live(pending: Seq<i32>, slot: int) -> bool {
    forall|i: int| 0 <= i < pending.len() ==> pending[i] != slot
}

/// Number of live slots below `slot`: the slot's number after compaction.
pub open spec fn slot_rank(pending: Seq<i32>, slot: int) -> int
    decreases slot,
{
    if slot <= 0 {
        0
    } else {
        slot_rank(pending, slot - 1) + if slot_live(pending, slot - 1) {
            1int
        } else {
            0int
        }
    }
}

/// The first `n` views with every marked slot left out, order kept.
pub open spec fn kept_views<V>(views: Seq<V>, pending: Seq<i32>, n: int) -> Seq<V>
    decreases n,
{
    if n <= 0 {
        Seq::empty()
    } else if slot_live(pending, n - 1) {
        kept_views(views, pending, n - 1).push(views[n - 1])
    } else {
        kept_views(views, pending, n - 1)
    }
}

/// Whether some external id maps to `slot`.
pub open spec fn slot_owned(mapping: Map<i32, i32>, slot: int) -> bool {
    exists|id: i32| mapping.contains_key(id) && #[trigger] mapping[id] == slot
}

/// Old slot to new slot, for the live slots below `n`.
pub open spec fn remap_table(pending: Seq<i32>, n: int) -> Map<i32, i32> {
    Map::new(
        |s: i32| 0 <= s < n && slot_live(pending, s as int),
        |s: i32| slot_rank(pending, s as int) as i32,
    )
}

/// The mapping with every slot replaced by its rank.
pub open spec fn remapped(mapping: Map<i32, i32>, pending: Seq<i32>) -> Map<i32, i32> {
    Map::new(
        |id: i32| mapping.contains_key(id),
        |id: i32| slot_rank(pending, mapping[id] as int) as i32,
    )
}

/// What a texture slot table is to the contracts of this crate.
pub struct TexmanView<V> {
    /// External id to internal slot, for the live textures.
    pub mapping: Map<i32, i32>,
    /// Slots marked for removal and not yet purged.
    pub pending: Seq<i32>,
    /// The next slot an upload will receive.
    pub next_slot: int,
    /// The stored views, indexed by slot.
    pub views: Seq<V>,
    /// Whether a compaction is owed.
    pub dirty: bool,
}

impl<V> TexmanView<V> {
    /// The table's invariant: every slot below `next_slot` has a view and
    /// is either marked for removal or owned by exactly one external id.
    pub open spec fn valid(self) -> bool {
        &&& 0 <= self.next_slot <= i32::MAX
        &&& self.views.len() == self.next_slot
        &&& forall|id: i32| #[trigger]
            self.mapping.contains_key(id) ==> 0 <= self.mapping[id] < self.next_slot && slot_live(
                self.pending,
                self.mapping[id] as int,
            )
        &&& forall|a: i32, b: i32|
            self.mapping.contains_key(a) && self.mapping.contains_key(b) && a != b
                ==> #[trigger] self.mapping[a] != #[trigger] self.mapping[b]
        &&& forall|i: int|
            0 <= i < self.pending.len() ==> 0 <= #[trigger] self.pending[i] < self.next_slot
        &&& forall|s: int|
            0 <= s < self.next_slot && #[trigger] slot_live(self.pending, s) ==> slot_owned(
                self.mapping,
                s,
            )
    }

    /// The table after `view` was stored under `id`: a fresh slot for the
    /// view, and the slot `id` owned before, if any, marked for removal.
    pub open spec fn uploaded(self, view: V, id: i32) -> TexmanView<V> {
        TexmanView {
            mapping: self.mapping.insert(id, self.next_slot as i32),
            pending: if self.mapping.contains_key(id) {
                self.pending.push(self.mapping[id])
            } else {
                self.pending
            },
            next_slot: self.next_slot + 1,
            views: self.views.push(view),
            dirty: true,
        }
    }

    /// The table after the texture known as `id` was dropped: its slot is
    /// marked for removal; an unknown id changes nothing.
    pub open spec fn removed(self, id: i32) -> TexmanView<V> {
        if self.mapping.contains_key(id) {
            TexmanView {
                mapping: self.mapping.remove(id),
                pending: self.pending.push(self.mapping[id]),
                dirty: true,
                ..self
            }
        } else {
            self
        }
    }

    /// The table after a compaction: marked slots purged, the survivors
    /// renumbered by rank, nothing pending, clean.
    pub open spec fn compacted(self) -> TexmanView<V> {
        TexmanView {
            mapping: remapped(self.mapping, self.pending),
            pending: Seq::empty(),
            next_slot: slot_rank(self.pending, self.next_slot),
            views: kept_views(self.views, self.pending, self.next_slot),
            dirty: false,
        }
    }
}

impl<V> View for Texman<V> {
    type V = TexmanView<V>;

    closed spec fn view(&self) -> TexmanView<V> {
        TexmanView {
            mapping: self.mapper@,
            pending: self.remove_list@,
            next_slot: self.id_alloc as int,
            views: self.image_views@,
            dirty: self.dirty,
        }
    }
}

impl<V> Texman<V> {
    /// The table's invariant; see `TexmanView::valid`.
    pub open spec fn wf(&self) -> bool {
        self@.valid()
    }

    /// The view of an empty table.
    pub open spec fn new_view() -> TexmanView<V> {
        TexmanView {
            mapping: Map::empty(),
            pending: Seq::empty(),
            next_slot: 0,
            views: Seq::empty(),
            dirty: true,
        }
    }

    /// An empty table. It starts dirty, so the first frame builds the array.
    pub fn new() -> (t: Self)
        ensures
            t.wf(),
            t@ == Self::new_view(),
    {
        Texman {
            mapper: HashMap::new(),
            remove_list: Vec::new(),
            id_alloc: 0,
            image_views: Vec::new(),
            dirty: true,
        }
    }

    /// Stores `view` under `id` in a fresh slot. A slot that `id` already
    /// owned is marked for removal and stays in place until the next
    /// compaction. Negative ids are ordinary ids.
    pub fn upload(&mut self, view: V, id: i32)
        requires
            old(self).wf(),
            old(self)@.next_slot < i32::MAX,
        ensures
            final(self).wf(),
            final(self)@ == old(self)@.uploaded(view, id),
    {
        let prior = self.mapper.get(&id);
        if let Some(slot) = prior {
            let slot: i32 = *slot;
            self.remove_list.push(slot);
        }
        let fresh: i32 = self.id_alloc;
        self.mapper.insert(id, fresh);
        self.id_alloc = fresh + 1;
        self.image_views.push(view);
        self.dirty = true;
        proof {
            let om = old(self).mapper@;
            let op = old(self).remove_list@;
            assert(old(self)@.pending == op);
            assert(old(self)@.mapping == om);
            assert(old(self)@.valid());
            assert forall|s: int|
                0 <= s < self.id_alloc && #[trigger] slot_live(
                    self.remove_list@,
                    s,
                ) implies slot_owned(self.mapper@, s) by {
                if s == fresh {
                    assert(self.mapper@.contains_key(id) && self.mapper@[id] == s);
                } else {
                    assert forall|i: int| 0 <= i < op.len() implies op[i] != s by {
                        assert(self.remove_list@[i] == op[i]);
                    }
                    assert(slot_live(op, s));
                    let k = choose|k: i32| om.contains_key(k) && #[trigger] om[k] == s;
                    if k == id {
                        assert(self.remove_list@[op.len() as int] == s);
                    }
                    assert(self.mapper@.contains_key(k) && self.mapper@[k] == s);
                }
            }
        }
    }

    /// Drops the mapping of `outer` and marks its slot for removal. The view
    /// stays in place until the next compaction.
    pub fn remove(&mut self, outer: i32) -> (r: Result<(), TexError>)
        requires
            old(self).wf(),
        ensures
            final(self).wf(),
            r is Ok <==> old(self)@.mapping.contains_key(outer),
            r is Err ==> r == Err::<(), TexError>(TexError::NotFound),
            final(self)@ == old(self)@.removed(outer),
    {
        match self.mapper.remove(&outer) {
            Some(inner) => {
                self.dirty = true;
                self.remove_list.push(inner);
                proof {
                    let om = old(self).mapper@;
                    let op = old(self).remove_list@;
                    assert(old(self)@.pending == op);
                    assert(old(self)@.mapping == om);
                    assert(old(self)@.valid());
                    assert forall|id: i32| #[trigger]
                        self.mapper@.contains_key(id) implies slot_live(
                        self.remove_list@,
                        self.mapper@[id] as int,
                    ) by {
                        assert(slot_live(op, om[id] as int));
                    }
                    assert forall|s: int|
                        0 <= s < self.id_alloc && #[trigger] slot_live(
                            self.remove_list@,
                            s,
                        ) implies slot_owned(self.mapper@, s) by {
                        assert forall|i: int| 0 <= i < op.len() implies op[i] != s by {
                            assert(self.remove_list@[i] == op[i]);
                        }
                        assert(slot_live(op, s));
                        let k = choose|k: i32| om.contains_key(k) && #[trigger] om[k] == s;
                        if k == outer {
                            assert(self.remove_list@[op.len() as int] == s);
                        }
                        assert(self.mapper@.contains_key(k) && self.mapper@[k] == s);
                    }
                }
                Ok(())
            },
            None => {
                assert(self.mapper@ =~= old(self).mapper@);
                Err(TexError::NotFound)
            },
        }
    }

    /// Compaction: purges every marked slot, renumbers the survivors from 0
    /// in their old order, and returns the old-to-new slot table. Marked
    /// slots have no entry in the table.
    fn gc(&mut self) -> (table: HashMap<i32, i32>)
        requires
            old(self).wf(),
        ensures
            final(self).wf(),
            table@ == remap_table(old(self)@.pending, old(self)@.next_slot),
            final(self)@ == old(self)@.compacted(),
    {
        let ghost pend = self.remove_list@;
        let ghost om = self.mapper@;
        let ghost ov = self.image_views@;
        let n: i32 = self.id_alloc;
        proof {
            assert(self@.pending == pend);
            assert(self@.mapping == om);
            assert(self@.valid());
        }
        let mut old_views: Vec<V> = Vec::new();
        core::mem::swap(&mut old_views, &mut self.image_views);
        let mut update_mapper: HashMap<i32, i32> = HashMap::new();
        let mut new_views: Vec<V> = Vec::new();
        let mut slot: i32 = 0;
        let mut next: i32 = 0;
        for view in it: old_views.into_iter()
            invariant
                it.seq() == ov,
                ov.len() == n,
                slot == it.index(),
                0 <= next <= slot <= n,
                next == slot_rank(pend, slot as int),
                new_views@.len() == next,
                new_views@ == kept_views(ov, pend, slot as int),
                update_mapper@ == remap_table(pend, slot as int),
                self.remove_list@ == pend,
        {
            if !contains_slot(&self.remove_list, slot) {
                update_mapper.insert(slot, next);
                new_views.push(view);
                next = next + 1;
            }
            slot = slot + 1;
            assert(update_mapper@ =~= remap_table(pend, slot as int));
        }
        let mut new_mapper: HashMap<i32, i32> = HashMap::new();
        for entry in it: self.mapper.iter()
            invariant
                self.mapper@ == om,
                it.seq() == spec_hash_map_iter(&self.mapper).remaining(),
                update_mapper@ == remap_table(pend, n as int),
                0 <= n,
                forall|id: i32| #[trigger]
                    om.contains_key(id) ==> 0 <= om[id] < n && slot_live(pend, om[id] as int),
                forall|id: i32| #[trigger]
                    new_mapper@.contains_key(id) ==> om.contains_key(id) && new_mapper@[id]
                        == slot_rank(pend, om[id] as int),
                forall|j: int|
                    0 <= j < it.index() ==> new_mapper@.contains_key(*(#[trigger] it.seq()[j]).0),
        {
            let (outer, inner) = entry;
            assert(om.contains_key(*outer) && om[*outer] == *inner);
            let renumbered = update_mapper.get(inner);
            assert(update_mapper@.contains_key(*inner));
            proof {
                lemma_rank_bounds(pend, *inner as int, n as int);
            }
            let renumbered: i32 = *renumbered.unwrap();
            new_mapper.insert(*outer, renumbered);
        }
        proof {
            let items = spec_hash_map_iter(&self.mapper).remaining();
            assert forall|id: i32| om.contains_key(id) implies new_mapper@.contains_key(id) by {
                assert(items.contains((&id, &om[id])));
                let j = choose|j: int| 0 <= j < items.len() && items[j] == (&id, &om[id]);
                assert(new_mapper@.contains_key(*items[j].0));
            }
            assert(new_mapper@ =~= remapped(om, pend));
            lemma_rank_density(pend, om, n as int);
        }
        self.remove_list.clear();
        self.mapper = new_mapper;
        self.image_views = new_views;
        self.dirty = false;
        self.id_alloc = next;
        update_mapper
    }

    /// Compacts the table and returns the number of live textures together
    /// with the old-to-new slot table. Everything that still holds old slot
    /// numbers has to be passed through the table before it is used again.
    pub fn tex_len(&mut self) -> (r: (usize, HashMap<i32, i32>))
        requires
            old(self).wf(),
        ensures
            final(self).wf(),
            final(self)@ == old(self)@.compacted(),
            r.0 == final(self)@.views.len(),
            r.1@ == remap_table(old(self)@.pending, old(self)@.next_slot),
            forall|s: int| 0 <= s < r.0 <==> #[trigger] slot_owned(final(self)@.mapping, s),
    {
        let ghost pend = self.remove_list@;
        let ghost n = self.id_alloc as int;
        let ghost ov = self.image_views@;
        let update_mapper = self.gc();
        proof {
            lemma_kept_len(ov, pend, n);
            lemma_slots_dense(self@);
        }
        (self.image_views.len(), update_mapper)
    }

    /// The external-to-slot mapping models are compiled against.
    pub fn mapper(&self) -> (m: &HashMap<i32, i32>)
        ensures
            m@ == self@.mapping,
    {
        &self.mapper
    }

    /// The number of slots handed out since the last compaction.
    pub fn slots(&self) -> (n: i32)
        ensures
            n == self@.next_slot,
    {
        self.id_alloc
    }

    /// What the texture array is built from: the number of elements and the
    /// views by slot. An empty table has nothing to bind and yields `None`.
    pub fn compile_set(&self) -> (set: Option<(u32, &Vec<V>)>)
        requires
            self.wf(),
        ensures
            set is None <==> self@.views.len() == 0,
            set is Some ==> (set->0).0 == self@.views.len() && (set->0).1@ == self@.views,
    {
        if self.image_views.len() == 0 {
            return None;
        }
        Some((self.image_views.len() as u32, &self.image_views))
    }

    /// Whether a compaction is owed.
    pub fn get_dirty(&self) -> (d: bool)
        ensures
            d == self@.dirty,
    {
        self.dirty
    }
}

impl<V> Default for Texman<V> {
    fn default() -> (t: Self)
        ensures
            t.wf(),
            t@ == Self::new_view(),
    {
        Texman::new()
    }
}

/// Whether `slot` is marked in `list`.
fn contains_slot(list: &Vec<i32>, slot: i32) -> (found: bool)
    ensures
        found == !slot_live(list@, slot as int),
{
    let mut i: usize = 0;
    while i < list.len()
        invariant
            i <= list.len(),
            forall|j: int| 0 <= j < i ==> list@[j] != slot,
        decreases list.len() - i,
    {
        if list[i] == slot {
            return true;
        }
        i = i + 1;
    }
    false
}

/// Ranks never exceed the slot they are taken at and grow with it.
pub proof fn lemma_rank_bounds(pending: Seq<i32>, a: int, b: int)
    requires
        0 <= a <= b,
    ensures
        0 <= slot_rank(pending, a) <= a,
        slot_rank(pending, a) <= slot_rank(pending, b),
        slot_live(pending, a) && a < b ==> slot_rank(pending, a) < slot_rank(pending, b),
    decreases b,
{
    if a > 0 {
        lemma_rank_bounds(pending, a - 1, a - 1);
    }
    if a < b {
        lemma_rank_bounds(pending, a, b - 1);
    }
}

/// Compaction keeps exactly as many views as there are live slots.
pub proof fn lemma_kept_len<V>(views: Seq<V>, pending: Seq<i32>, n: int)
    requires
        0 <= n,
    ensures
        kept_views(views, pending, n).len() == slot_rank(pending, n),
    decreases n,
{
    if n > 0 {
        lemma_kept_len(views, pending, n - 1);
    }
}

/// A live slot's view is found at the slot's rank after compaction.
pub proof fn lemma_kept_view<V>(views: Seq<V>, pending: Seq<i32>, n: int, slot: int)
    requires
        0 <= slot < n,
        slot_live(pending, slot),
    ensures
        0 <= slot_rank(pending, slot) < kept_views(views, pending, n).len(),
        kept_views(views, pending, n)[slot_rank(pending, slot)] == views[slot],
    decreases n,
{
    lemma_kept_len(views, pending, n);
    lemma_kept_len(views, pending, n - 1);
    lemma_rank_bounds(pending, slot, n - 1);
    if slot < n - 1 {
        lemma_kept_view(views, pending, n - 1, slot);
    }
}

/// Every rank below the live count is the rank of some live slot.
pub proof fn lemma_rank_onto(pending: Seq<i32>, n: int, r: int) -> (slot: int)
    requires
        0 <= r < slot_rank(pending, n),
    ensures
        0 <= slot < n,
        slot_live(pending, slot),
        slot_rank(pending, slot) == r,
    decreases n,
{
    if n <= 0 {
        0
    } else if slot_live(pending, n - 1) && slot_rank(pending, n - 1) == r {
        n - 1
    } else {
        lemma_rank_onto(pending, n - 1, r)
    }
}

/// Renumbering a well-formed mapping by rank keeps it one-to-one and makes
/// its slots exactly the numbers below the live count.
proof fn lemma_rank_density(pending: Seq<i32>, mapping: Map<i32, i32>, n: int)
    requires
        0 <= n <= i32::MAX,
        forall|id: i32| #[trigger]
            mapping.contains_key(id) ==> 0 <= mapping[id] < n && slot_live(
                pending,
                mapping[id] as int,
            ),
        forall|a: i32, b: i32|
            mapping.contains_key(a) && mapping.contains_key(b) && a != b ==> #[trigger] mapping[a]
                != #[trigger] mapping[b],
        forall|s: int| 0 <= s < n && #[trigger] slot_live(pending, s) ==> slot_owned(mapping, s),
    ensures
        ({
            let m = remapped(mapping, pending);
            let count = slot_rank(pending, n);
            &&& 0 <= count <= n
            &&& forall|id: i32| #[trigger] m.contains_key(id) ==> 0 <= m[id] < count
            &&& forall|a: i32, b: i32|
                m.contains_key(a) && m.contains_key(b) && a != b ==> #[trigger] m[a]
                    != #[trigger] m[b]
            &&& forall|s: int| 0 <= s < count ==> #[trigger] slot_owned(m, s)
        }),
{
    let m = remapped(mapping, pending);
    let count = slot_rank(pending, n);
    lemma_rank_bounds(pending, n, n);
    assert forall|id: i32| #[trigger] m.contains_key(id) implies 0 <= m[id] < count by {
        lemma_rank_bounds(pending, mapping[id] as int, n);
    }
    assert forall|a: i32, b: i32|
        m.contains_key(a) && m.contains_key(b) && a != b implies #[trigger] m[a]
        != #[trigger] m[b] by {
        lemma_rank_bounds(pending, mapping[a] as int, n);
        lemma_rank_bounds(pending, mapping[b] as int, n);
        if mapping[a] < mapping[b] {
            lemma_rank_bounds(pending, mapping[a] as int, mapping[b] as int);
        } else {
            lemma_rank_bounds(pending, mapping[b] as int, mapping[a] as int);
        }
    }
    assert forall|s: int| 0 <= s < count implies #[trigger] slot_owned(m, s) by {
        let slot = lemma_rank_onto(pending, n, s);
        let id = choose|id: i32| mapping.contains_key(id) && #[trigger] mapping[id] == slot;
        assert(m.contains_key(id) && m[id] == s);
    }
}

/// Slot density: with nothing marked for removal, the mapped slots are
/// exactly the numbers below the view count, each owned by one id.
pub proof fn lemma_slots_dense<V>(t: TexmanView<V>)
    requires
        t.valid(),
        t.pending.len() == 0,
    ensures
        t.views.len() == t.next_slot,
        forall|s: int| 0 <= s < t.views.len() <==> #[trigger] slot_owned(t.mapping, s),
        forall|a: i32, b: i32|
            t.mapping.contains_key(a) && t.mapping.contains_key(b) && a != b
                ==> #[trigger] t.mapping[a] != #[trigger] t.mapping[b],
{
    assert forall|s: int| 0 <= s < t.views.len() implies #[trigger] slot_owned(t.mapping, s) by {
        assert(slot_live(t.pending, s));
    }
}

/// Compaction keeps the table valid.
pub proof fn lemma_compacted_valid<V>(t: TexmanView<V>)
    requires
        t.valid(),
    ensures
        t.compacted().valid(),
        t.compacted().views.len() == slot_rank(t.pending, t.next_slot),
{
    lemma_rank_density(t.pending, t.mapping, t.next_slot);
    lemma_kept_len(t.views, t.pending, t.next_slot);
}

/// A compaction moves no texture: every id that was mapped stays mapped,
/// its new slot is the slot table's image of the old one, and the view at
/// the new slot is the view that stood at the old one.
pub proof fn lemma_compaction_keeps_views<V>(t: TexmanView<V>, id: i32)
    requires
        t.valid(),
        t.mapping.contains_key(id),
    ensures
        ({
            let after = t.compacted();
            let table = remap_table(t.pending, t.next_slot);
            &&& after.mapping.contains_key(id)
            &&& table.contains_key(t.mapping[id])
            &&& after.mapping[id] == table[t.mapping[id]]
            &&& 0 <= after.mapping[id] < after.views.len()
            &&& after.views[after.mapping[id] as int] == t.views[t.mapping[id] as int]
        }),
{
    let slot = t.mapping[id] as int;
    lemma_kept_view(t.views, t.pending, t.next_slot, slot);
    lemma_rank_bounds(t.pending, slot, t.next_slot);
}

} // verus!
