//! Generational indices: an allocator that hands out slot indices tagged with
//! a generation, and an array that stores values under such indices.
use vstd::prelude::*;

verus! {

/// A slot index together with the generation under which it was handed out.
#[derive(Debug, Clone, Copy, PartialEq, Eq, Structural)]
pub struct GenIndex {
    pub index: usize,
    pub generation: u64,
}

/// An entity of the game world is named by a generational index.
pub type Entity = GenIndex;

/// Whether a slot of the allocator is currently handed out.
#[derive(Debug, Clone, Copy, PartialEq, Eq, Structural)]
pub enum GenIndexAllocationStatus {
    Free,
    Live,
}

#[derive(Debug, Clone, Copy, PartialEq, Eq, Structural)]
struct GenIndexAllocationEntry {
    status: GenIndexAllocationStatus,
    generation: u64,
}

/// Hands out generational indices, reusing freed slots last-in first-out.
#[derive(PartialEq, Eq)]
pub struct GenIndexAllocator {
    entries: Vec<GenIndexAllocationEntry>,
    free: Vec<usize>,
}

/// The abstract state of an allocator: each slot's status and current
/// generation, and the stack of freed slots (the last one is reused first).
pub struct AllocatorModel {
    pub slots: Seq<(GenIndexAllocationStatus, u64)>,
    pub free: Seq<usize>,
}

impl AllocatorModel {
    /// The model of a fresh allocator.
    pub open spec fn empty() -> AllocatorModel {
        AllocatorModel { slots: Seq::empty(), free: Seq::empty() }
    }

    /// Consistency of the free stack with the slot statuses: the free stack
    /// holds exactly the free slots, each once; every generation is positive.
    pub open spec fn wf(self) -> bool {
        &&& forall|i: int| 0 <= i < self.free.len() ==> {
            &&& 0 <= #[trigger] self.free[i] < self.slots.len()
            &&& self.slots[self.free[i] as int].0 == GenIndexAllocationStatus::Free
        }
        &&& forall|i: int, j: int|
            0 <= i < j < self.free.len() ==> #[trigger] self.free[i] != #[trigger] self.free[j]
        &&& forall|k: int|
            0 <= k < self.slots.len() && #[trigger] self.slots[k].0 == GenIndexAllocationStatus::Free
                ==> self.free.contains(k as usize)
        &&& forall|k: int| 0 <= k < self.slots.len() ==> #[trigger] self.slots[k].1 >= 1
    }

    /// `g` names a slot that is live under exactly `g`'s generation.
    pub open spec fn is_live(self, g: GenIndex) -> bool {
        &&& g.index < self.slots.len()
        &&& self.slots[g.index as int].0 == GenIndexAllocationStatus::Live
        &&& self.slots[g.index as int].1 == g.generation
    }

    /// Whether `allocate` can run without a generation counter overflowing
    /// and, when it must add a slot, without the slot count overflowing.
    pub open spec fn can_allocate(self) -> bool {
        &&& self.free.len() > 0 ==> self.slots[self.free.last() as int].1 < u64::MAX
        &&& self.free.len() == 0 ==> self.slots.len() < usize::MAX
    }

    /// The state after `allocate` and the index it returns.
    pub open spec fn allocate(self) -> (AllocatorModel, GenIndex) {
        if self.free.len() == 0 {
            (
                AllocatorModel {
                    slots: self.slots.push((GenIndexAllocationStatus::Live, 1u64)),
                    free: self.free,
                },
                GenIndex { index: self.slots.len() as usize, generation: 1 },
            )
        } else {
            let e = self.free.last();
            let gen = (self.slots[e as int].1 + 1) as u64;
            (
                AllocatorModel {
                    slots: self.slots.update(e as int, (GenIndexAllocationStatus::Live, gen)),
                    free: self.free.drop_last(),
                },
                GenIndex { index: e, generation: gen },
            )
        }
    }

    /// The state after `deallocate(g)` and its result. The generation of `g`
    /// is not consulted: any live slot at `g.index` is freed.
    pub open spec fn deallocate(self, g: GenIndex) -> (AllocatorModel, bool) {
        if g.index >= self.slots.len() {
            (self, false)
        } else if self.slots[g.index as int].0 == GenIndexAllocationStatus::Free {
            (self, false)
        } else {
            (
                AllocatorModel {
                    slots: self.slots.update(
                        g.index as int,
                        (GenIndexAllocationStatus::Free, self.slots[g.index as int].1),
                    ),
                    free: self.free.push(g.index),
                },
                true,
            )
        }
    }

    /// `g` can never become live again: its slot has moved past `g`'s
    /// generation, or still carries it but is free.
    pub open spec fn is_retired(self, g: GenIndex) -> bool {
        &&& g.index < self.slots.len()
        &&& g.generation <= self.slots[g.index as int].1
        &&& !self.is_live(g)
    }
}

/// The model of an allocator held as its two vectors.
spec fn model_of(entries: Seq<GenIndexAllocationEntry>, free: Seq<usize>) -> AllocatorModel {
    AllocatorModel {
        slots: entries.map_values(|e: GenIndexAllocationEntry| (e.status, e.generation)),
        free,
    }
}

fn allocate_in(entries: &mut Vec<GenIndexAllocationEntry>, free: &mut Vec<usize>) -> (r: GenIndex)
    requires
        model_of(old(entries)@, old(free)@).wf(),
        model_of(old(entries)@, old(free)@).can_allocate(),
    ensures
        (model_of(final(entries)@, final(free)@), r) == model_of(old(entries)@, old(free)@).allocate(),
        model_of(final(entries)@, final(free)@).wf(),
    {
        let ghost m = model_of(entries@, free@);
        if free.len() == 0 {
            entries.push(
                GenIndexAllocationEntry { status: GenIndexAllocationStatus::Live, generation: 1 },
            );
            let index = entries.len() - 1;
            proof {
                let (m2, _) = m.allocate();
                assert(model_of(entries@, free@).slots =~= m2.slots);
                assert(model_of(entries@, free@).free =~= m2.free);
                assert forall|k: int|
                    0 <= k < model_of(entries@, free@).slots.len() && #[trigger] model_of(entries@, free@).slots[k].0
                        == GenIndexAllocationStatus::Free implies model_of(entries@, free@).free.contains(k as usize) by {
                    assert(k < m.slots.len());
                    assert(model_of(entries@, free@).slots[k] == m.slots[k]);
                }
            }
            GenIndex { index, generation: 1 }
        } else {
            let e = free.pop().unwrap();
            assert(e == m.free.last());
            let old_entry = entries[e];
            let generation = old_entry.generation + 1;
            entries.set(
                e,
                GenIndexAllocationEntry { status: GenIndexAllocationStatus::Live, generation },
            );
            proof {
                let (m2, _) = m.allocate();
                assert(model_of(entries@, free@).slots =~= m2.slots);
                assert(model_of(entries@, free@).free =~= m2.free);
                assert forall|i: int| 0 <= i < model_of(entries@, free@).free.len() implies {
                    &&& 0 <= #[trigger] model_of(entries@, free@).free[i] < model_of(entries@, free@).slots.len()
                    &&& model_of(entries@, free@).slots[model_of(entries@, free@).free[i] as int].0 == GenIndexAllocationStatus::Free
                } by {
                    assert(model_of(entries@, free@).free[i] == m.free[i]);
                    assert(m.free[i] != m.free[m.free.len() - 1]);
                }
                assert forall|k: int|
                    0 <= k < model_of(entries@, free@).slots.len() && #[trigger] model_of(entries@, free@).slots[k].0
                        == GenIndexAllocationStatus::Free implies model_of(entries@, free@).free.contains(k as usize) by {
                    assert(k != e);
                    assert(model_of(entries@, free@).slots.len() == entries.len());
                    assert(k as usize == k);
                    assert(m.slots[k] == model_of(entries@, free@).slots[k]);
                    assert(m.free.contains(k as usize));
                    let j = choose|j: int| 0 <= j < m.free.len() && m.free[j] == k as usize;
                    assert(m.free[m.free.len() - 1] == e);
                    assert(j != m.free.len() - 1);
                    assert(model_of(entries@, free@).free[j] == k as usize);
                }
            }
            GenIndex { index: e, generation }
        }
    }

fn deallocate_in(
    entries: &mut Vec<GenIndexAllocationEntry>,
    free: &mut Vec<usize>,
    index: GenIndex,
) -> (r: bool)
    requires
        model_of(old(entries)@, old(free)@).wf(),
    ensures
        (model_of(final(entries)@, final(free)@), r) == model_of(old(entries)@, old(free)@).deallocate(index),
        model_of(final(entries)@, final(free)@).wf(),
    {
        let ghost m = model_of(entries@, free@);
        if index.index < entries.len() {
            let entry = entries[index.index];
            if entry.status == GenIndexAllocationStatus::Free {
                return false;
            }
            entries.set(
                index.index,
                GenIndexAllocationEntry {
                    status: GenIndexAllocationStatus::Free,
                    generation: entry.generation,
                },
            );
            free.push(index.index);
            proof {
                let (m2, _) = m.deallocate(index);
                assert(model_of(entries@, free@).slots =~= m2.slots);
                assert(model_of(entries@, free@).free =~= m2.free);
                assert(!m.free.contains(index.index));
                assert forall|k: int|
                    0 <= k < model_of(entries@, free@).slots.len() && #[trigger] model_of(entries@, free@).slots[k].0
                        == GenIndexAllocationStatus::Free implies model_of(entries@, free@).free.contains(k as usize) by {
                    if k == index.index {
                        assert(model_of(entries@, free@).free[model_of(entries@, free@).free.len() - 1] == k as usize);
                    } else {
                        assert(m.slots[k] == model_of(entries@, free@).slots[k]);
                        let j = choose|j: int| 0 <= j < m.free.len() && m.free[j] == k as usize;
                        assert(model_of(entries@, free@).free[j] == k as usize);
                    }
                }
            }
            true
        } else {
            false
        }
    }


impl View for GenIndexAllocator {
    type V = AllocatorModel;

    closed spec fn view(&self) -> AllocatorModel {
        model_of(self.entries@, self.free@)
    }
}

impl GenIndexAllocator {
    #[verifier::type_invariant]
    spec fn consistent(&self) -> bool {
        self@.wf()
    }

    /// An allocator that has handed out nothing.
    pub fn new() -> (r: GenIndexAllocator)
        ensures
            r@ == AllocatorModel::empty(),
            r@.wf(),
    {
        let r = GenIndexAllocator { entries: Vec::new(), free: Vec::new() };
        assert(r@.slots =~= Seq::<(GenIndexAllocationStatus, u64)>::empty());
        r
    }

    /// Hands out an index: the most recently freed slot under its next
    /// generation, or a new slot under generation 1 when none is free.
    pub fn allocate(&mut self) -> (r: GenIndex)
        requires
            old(self)@.can_allocate(),
        ensures
            old(self)@.wf(),
            (final(self)@, r) == old(self)@.allocate(),
            final(self)@.wf(),
    {
        proof {
            use_type_invariant(&*self);
        }
        let mut taken = GenIndexAllocator::new();
        std::mem::swap(self, &mut taken);
        let GenIndexAllocator { mut entries, mut free } = taken;
        let r = allocate_in(&mut entries, &mut free);
        *self = GenIndexAllocator { entries, free };
        r
    }

    /// Frees the slot at `index.index` if it is live, whatever generation
    /// `index` carries; returns whether a slot was freed.
    pub fn deallocate(&mut self, index: GenIndex) -> (r: bool)
        ensures
            old(self)@.wf(),
            (final(self)@, r) == old(self)@.deallocate(index),
            final(self)@.wf(),
    {
        proof {
            use_type_invariant(&*self);
        }
        let mut taken = GenIndexAllocator::new();
        std::mem::swap(self, &mut taken);
        let GenIndexAllocator { mut entries, mut free } = taken;
        let r = deallocate_in(&mut entries, &mut free, index);
        *self = GenIndexAllocator { entries, free };
        r
    }

    /// Whether `index` is live: its slot is handed out under exactly its
    /// generation.
    pub fn is_live(&self, index: GenIndex) -> (r: bool)
        requires
            index.index < self@.slots.len(),
        ensures
            self@.wf(),
            r == self@.is_live(index),
    {
        proof {
            use_type_invariant(self);
        }
        let e = self.entries[index.index];
        e.generation == index.generation && e.status == GenIndexAllocationStatus::Live
    }
}

impl Clone for GenIndexAllocator {
    fn clone(&self) -> (r: GenIndexAllocator)
        ensures
            r@ == self@,
    {
        proof {
            use_type_invariant(self);
        }
        let entries = self.entries.clone();
        let free = self.free.clone();
        assert(entries@ =~= self.entries@);
        assert(free@ =~= self.free@);
        GenIndexAllocator { entries, free }
    }
}

impl Default for GenIndexAllocator {
    fn default() -> (r: GenIndexAllocator)
        ensures
            r@ == AllocatorModel::empty(),
            r@.wf(),
    {
        GenIndexAllocator::new()
    }
}

/// A value stored in a `GenIndexArray` with the generation it was stored under.
#[derive(Debug)]
pub struct ArrayEntry<T> {
    pub value: T,
    pub generation: u64,
}

/// Values addressed by generational index; a slot answers only to the
/// generation its value was stored under.
pub struct GenIndexArray<T>(pub Vec<Option<ArrayEntry<T>>>);

/// The slots after storing `value` under `g`: the sequence is padded with
/// empty slots up to `g.index` if needed and slot `g.index` is overwritten.
pub open spec fn array_set<T>(s: Seq<Option<ArrayEntry<T>>>, g: GenIndex, value: T) -> Seq<
    Option<ArrayEntry<T>>,
> {
    let n: int = if g.index < s.len() { s.len() as int } else { g.index + 1 };
    Seq::new(
        n as nat,
        |k: int|
            if k == g.index {
                Some(ArrayEntry { value, generation: g.generation })
            } else if k < s.len() {
                s[k]
            } else {
                None
            },
    )
}

/// The slots after clearing `g.index`; the generation of `g` is not consulted.
pub open spec fn array_clear<T>(s: Seq<Option<ArrayEntry<T>>>, g: GenIndex) -> Seq<
    Option<ArrayEntry<T>>,
> {
    if g.index < s.len() {
        s.update(g.index as int, None)
    } else {
        s
    }
}

/// The value readable under `g`: present only when slot `g.index` holds a
/// value stored under `g`'s generation.
pub open spec fn array_get<T>(s: Seq<Option<ArrayEntry<T>>>, g: GenIndex) -> Option<T> {
    if g.index < s.len() {
        match s[g.index as int] {
            Some(e) => if e.generation == g.generation {
                Some(e.value)
            } else {
                None
            },
            None => None,
        }
    } else {
        None
    }
}

impl<T> GenIndexArray<T> {
    /// An array with no slots.
    pub fn new() -> (r: GenIndexArray<T>)
        ensures
            r.0@ == Seq::<Option<ArrayEntry<T>>>::empty(),
    {
        GenIndexArray(Vec::new())
    }

    /// Stores `value` under `index`, growing the array with empty slots as
    /// needed.
    pub fn set(&mut self, index: GenIndex, value: T)
        requires
            index.index < usize::MAX,
        ensures
            final(self).0@ == array_set(old(self).0@, index, value),
    {
        let ghost s0 = self.0@;
        while index.index >= self.0.len()
            invariant
                index.index < usize::MAX,
                s0.len() <= self.0@.len(),
                self.0@.len() <= if index.index < s0.len() { s0.len() as int } else { index.index + 1 },
                forall|k: int| 0 <= k < s0.len() ==> self.0@[k] == s0[k],
                forall|k: int| s0.len() <= k < self.0@.len() ==> self.0@[k] is None,
            decreases index.index + 1 - self.0@.len(),
        {
            self.0.push(None);
        }
        self.0.set(index.index, Some(ArrayEntry { value, generation: index.generation }));
        assert(self.0@ =~= array_set(s0, index, value));
    }

    /// Empties slot `index.index`, whatever generation its value was stored
    /// under; does nothing past the end.
    pub fn clear(&mut self, index: GenIndex)
        ensures
            final(self).0@ == array_clear(old(self).0@, index),
    {
        if index.index >= self.0.len() {
            return;
        }
        self.0.set(index.index, None);
    }

    /// The value stored under `index`, if its generation matches.
    pub fn get(&self, index: GenIndex) -> (r: Option<&T>)
        ensures
            r matches Some(v) ==> array_get(self.0@, index) == Some(*v),
            r is None ==> array_get(self.0@, index) is None,
    {
        if index.index < self.0.len() {
            match &self.0[index.index] {
                Some(entry) => {
                    if entry.generation == index.generation {
                        Some(&entry.value)
                    } else {
                        None
                    }
                },
                None => None,
            }
        } else {
            None
        }
    }

    /// Mutable access to the value stored under `index`, if its generation
    /// matches; writes through the reference land in that slot.
    pub fn get_mut(&mut self, index: GenIndex) -> (r: Option<&mut T>)
        ensures
            array_get(old(self).0@, index) is None ==> r is None && final(self).0@ == old(self).0@,
            array_get(old(self).0@, index) is Some ==> r is Some && *r->0 == array_get(old(self).0@, index)->0
                && final(self).0@ == old(self).0@.update(
                index.index as int,
                Some(ArrayEntry { value: *final(r->0), generation: index.generation }),
            ),
    {
        if index.index < self.0.len() {
            match &mut self.0[index.index] {
                Some(entry) => {
                    if entry.generation == index.generation {
                        Some(&mut entry.value)
                    } else {
                        None
                    }
                },
                None => None,
            }
        } else {
            None
        }
    }
}

impl<T> Default for GenIndexArray<T> {
    fn default() -> (r: GenIndexArray<T>)
        ensures
            r.0@ == Seq::<Option<ArrayEntry<T>>>::empty(),
    {
        GenIndexArray::new()
    }
}

/// An index handed out by `allocate` is live in the resulting allocator and
/// names a slot that was not live before; every index live before stays
/// live. A new slot is handed out under generation 1; a reused slot under a
/// generation above every one it was handed out under before, so no stale
/// index becomes live.
pub proof fn lemma_allocate_fresh_and_live(m: AllocatorModel)
    requires
        m.wf(),
        m.can_allocate(),
    ensures
        ({
            let (m2, g) = m.allocate();
            &&& m2.is_live(g)
            &&& forall|h: GenIndex| #[trigger] m.is_live(h) ==> h.index != g.index
            &&& forall|h: GenIndex| #[trigger] m.is_live(h) ==> m2.is_live(h)
            &&& m.free.len() == 0 ==> g == GenIndex { index: m.slots.len() as usize, generation: 1 }
            &&& m.free.len() > 0 ==> g.index < m.slots.len() && g.generation == m.slots[g.index as int].1 + 1
            &&& forall|h: GenIndex|
                h.index == g.index && h.index < m.slots.len() && h.generation <= m.slots[h.index as int].1
                    ==> #[trigger] h.generation < g.generation
            &&& forall|h: GenIndex| #[trigger] m.is_retired(h) ==> !m2.is_live(h)
        }),
{
    let (m2, g) = m.allocate();
    if m.free.len() > 0 {
        let e = m.free.last();
        assert(m.free[m.free.len() - 1] == e);
        assert(m.slots[e as int].0 == GenIndexAllocationStatus::Free);
        assert(m2.slots[e as int] == (GenIndexAllocationStatus::Live, g.generation));
        assert forall|h: GenIndex| #[trigger] m.is_live(h) implies h.index != g.index
            && m2.is_live(h) by {}
    } else {
        assert(m2.slots[m.slots.len() as int] == (GenIndexAllocationStatus::Live, 1u64));
        assert forall|h: GenIndex| #[trigger] m.is_live(h) implies h.index != g.index
            && m2.is_live(h) by {
            assert(m2.slots[h.index as int] == m.slots[h.index as int]);
        }
    }
    assert forall|h: GenIndex| #[trigger] m.is_retired(h) implies !m2.is_live(h) by {
        lemma_retired_stays_retired(m, h, h);
    }
}

/// Deallocating a live index succeeds and leaves that index retired.
pub proof fn lemma_deallocate_retires(m: AllocatorModel, g: GenIndex)
    requires
        m.wf(),
        m.is_live(g),
    ensures
        m.deallocate(g).1,
        m.deallocate(g).0.is_retired(g),
{
}

/// A retired index stays retired through any `allocate` or `deallocate`:
/// once freed, a generational index is never live again.
pub proof fn lemma_retired_stays_retired(m: AllocatorModel, g: GenIndex, h: GenIndex)
    requires
        m.wf(),
        m.can_allocate(),
        m.is_retired(g),
    ensures
        m.allocate().0.is_retired(g),
        m.deallocate(h).0.is_retired(g),
{
    if m.free.len() > 0 {
        let e = m.free.last();
        assert(m.free[m.free.len() - 1] == e);
    }
}

/// Generations never go down and slots are never removed.
pub proof fn lemma_generations_monotonic(m: AllocatorModel, h: GenIndex)
    requires
        m.wf(),
        m.can_allocate(),
    ensures
        m.allocate().0.slots.len() >= m.slots.len(),
        m.deallocate(h).0.slots.len() == m.slots.len(),
        forall|k: int|
            0 <= k < m.slots.len() ==> #[trigger] m.allocate().0.slots[k].1 >= m.slots[k].1,
        forall|k: int|
            0 <= k < m.slots.len() ==> #[trigger] m.deallocate(h).0.slots[k].1 == m.slots[k].1,
{
    if m.free.len() > 0 {
        let e = m.free.last();
        assert(m.free[m.free.len() - 1] == e);
    }
}

/// Reading under the index a value was stored with gives that value back.
pub proof fn lemma_set_then_get<T>(s: Seq<Option<ArrayEntry<T>>>, g: GenIndex, value: T)
    ensures
        array_get(array_set(s, g, value), g) == Some(value),
{
}

/// Storing under one slot leaves what every other index reads unchanged.
pub proof fn lemma_set_preserves_other_slots<T>(
    s: Seq<Option<ArrayEntry<T>>>,
    g: GenIndex,
    value: T,
    h: GenIndex,
)
    requires
        h.index != g.index,
    ensures
        array_get(array_set(s, g, value), h) == array_get(s, h),
{
}

/// A slot answers only to the generation its value was stored under.
pub proof fn lemma_other_generation_reads_nothing<T>(
    s: Seq<Option<ArrayEntry<T>>>,
    g: GenIndex,
    value: T,
    h: GenIndex,
)
    requires
        h.index == g.index,
        h.generation != g.generation,
    ensures
        array_get(array_set(s, g, value), h) is None,
{
}

/// After clearing a slot, no index reads anything there.
pub proof fn lemma_clear_then_get<T>(s: Seq<Option<ArrayEntry<T>>>, g: GenIndex, h: GenIndex)
    requires
        h.index == g.index,
    ensures
        array_get(array_clear(s, g), h) is None,
{
}

/// Clearing one slot leaves what every other index reads unchanged.
pub proof fn lemma_clear_preserves_other_slots<T>(
    s: Seq<Option<ArrayEntry<T>>>,
    g: GenIndex,
    h: GenIndex,
)
    requires
        h.index != g.index,
    ensures
        array_get(array_clear(s, g), h) == array_get(s, h),
{
}

/// A retired index cannot read a value stored under an index that the
/// allocator hands out afterwards, even when that index reuses its slot.
pub proof fn lemma_retired_index_reads_nothing_new<T>(
    m: AllocatorModel,
    s: Seq<Option<ArrayEntry<T>>>,
    g: GenIndex,
    value: T,
)
    requires
        m.wf(),
        m.can_allocate(),
        m.is_retired(g),
    ensures
        ({
            let (m2, g2) = m.allocate();
            g2.index == g.index ==> array_get(array_set(s, g2, value), g) is None
        }),
{
    if m.free.len() > 0 {
        let e = m.free.last();
        assert(m.free[m.free.len() - 1] == e);
    }
}

} // verus!
