//! A slot arena whose handles carry a generation, so that a handle to a slot that
//! has been freed is never taken for a handle to what lives there later.

use std::collections::VecDeque;
use vstd::prelude::*;

verus! {

/// Generational ID for the elements of [`GenerationalVec`]: a slot index and the
/// generation of the slot at the time the element was added.
#[derive(Debug, Clone, Copy, PartialEq, Eq, Hash, Structural)]
pub struct GenerationalId {
    pub index: usize,
    pub generation: u32,
}

/// One slot of a [`GenerationalVec`]: its current generation, and the element that
/// lives there, if any.
pub struct Entry<T> {
    pub generation: u32,
    pub inner: Option<T>,
}

/// What a [`GenerationalVec`] holds: its slots, and the queue of free slot indices
/// in the order in which they will be handed out again.
pub struct GenerationalVecView<T> {
    pub entries: Seq<Entry<T>>,
    pub free: Seq<usize>,
}

/// How many of `entries` are occupied.
pub open spec fn live_count<T>(entries: Seq<Entry<T>>) -> nat
    decreases entries.len(),
{
    if entries.len() == 0 {
        0
    } else {
        live_count(entries.drop_last()) + if entries.last().inner is Some {
            1nat
        } else {
            0nat
        }
    }
}

impl<T> GenerationalVecView<T> {
    /// `id` names an element that is in the collection now: its slot exists, is
    /// occupied, and is in the generation that `id` was issued for.
    pub open spec fn contains(self, id: GenerationalId) -> bool {
        &&& id.index < self.entries.len()
        &&& self.entries[id.index as int].generation == id.generation
        &&& self.entries[id.index as int].inner is Some
    }

    /// The element that `id` names, if it is in the collection.
    pub open spec fn get(self, id: GenerationalId) -> Option<T> {
        if self.contains(id) {
            self.entries[id.index as int].inner
        } else {
            None
        }
    }

    /// Every queued slot exists, is empty, has generations to spare, and is queued
    /// once.
    pub open spec fn wf(self) -> bool {
        &&& forall|i: int|
            0 <= i < self.free.len() ==> {
                &&& (#[trigger] self.free[i]) < self.entries.len()
                &&& self.entries[self.free[i] as int].inner is None
                &&& self.entries[self.free[i] as int].generation < u32::MAX
            }
        &&& forall|i: int, j: int|
            0 <= i < j < self.free.len() ==> self.free[i] != self.free[j]
    }

    /// The id that the next `add` hands out: the slot at the head of the queue in
    /// its next generation, or a new slot in generation 0.
    pub open spec fn next_id(self) -> GenerationalId {
        if self.free.len() > 0 {
            GenerationalId {
                index: self.free[0],
                generation: (self.entries[self.free[0] as int].generation + 1) as u32,
            }
        } else {
            GenerationalId { index: self.entries.len() as usize, generation: 0 }
        }
    }

    /// The collection after `value` has been added.
    pub open spec fn added(self, value: T) -> Self {
        let id = self.next_id();
        let entry = Entry { generation: id.generation, inner: Some(value) };
        if self.free.len() > 0 {
            GenerationalVecView {
                entries: self.entries.update(id.index as int, entry),
                free: self.free.skip(1),
            }
        } else {
            GenerationalVecView { entries: self.entries.push(entry), free: self.free }
        }
    }

    /// The collection after `remove(id)`: if `id` names an element, its slot is
    /// emptied and queued for reuse, unless the slot has used up its generations, in
    /// which case it stays empty for good. Otherwise nothing changes.
    pub open spec fn removed(self, id: GenerationalId) -> Self {
        if self.contains(id) {
            GenerationalVecView {
                entries: self.entries.update(
                    id.index as int,
                    Entry { generation: id.generation, inner: None },
                ),
                free: if id.generation < u32::MAX {
                    self.free.push(id.index)
                } else {
                    self.free
                },
            }
        } else {
            self
        }
    }

    /// The collection after the element that `id` names has been given the value
    /// `value`.
    pub open spec fn with_value(self, id: GenerationalId, value: T) -> Self {
        GenerationalVecView {
            entries: self.entries.update(
                id.index as int,
                Entry { generation: id.generation, inner: Some(value) },
            ),
            free: self.free,
        }
    }

    /// The number of elements in the collection.
    pub open spec fn len(self) -> nat {
        live_count(self.entries)
    }
}

/// There are never more occupied slots than slots.
pub proof fn lemma_live_count_bound<T>(entries: Seq<Entry<T>>)
    ensures
        live_count(entries) <= entries.len(),
    decreases entries.len(),
{
    if entries.len() > 0 {
        lemma_live_count_bound(entries.drop_last());
    }
}

/// Rewriting one slot changes the count by what that slot gains or loses.
pub proof fn lemma_live_count_update<T>(entries: Seq<Entry<T>>, index: int, entry: Entry<T>)
    requires
        0 <= index < entries.len(),
    ensures
        live_count(entries.update(index, entry)) + (if entries[index].inner is Some {
            1nat
        } else {
            0nat
        }) == live_count(entries) + (if entry.inner is Some {
            1nat
        } else {
            0nat
        }),
    decreases entries.len(),
{
    let updated = entries.update(index, entry);
    if index == entries.len() - 1 {
        assert(updated.drop_last() =~= entries.drop_last());
    } else {
        assert(updated.drop_last() =~= entries.drop_last().update(index, entry));
        lemma_live_count_update(entries.drop_last(), index, entry);
    }
}

/// A new slot at the end counts if it is occupied.
pub proof fn lemma_live_count_push<T>(entries: Seq<Entry<T>>, entry: Entry<T>)
    ensures
        live_count(entries.push(entry)) == live_count(entries) + (if entry.inner is Some {
            1nat
        } else {
            0nat
        }),
{
    assert(entries.push(entry).drop_last() =~= entries);
}

/// Vec-like collection that supports generational IDs.
pub struct GenerationalVec<T> {
    entries: Vec<Entry<T>>,
    // Indices of the empty slots that may be handed out again, oldest first.
    empty_queue: VecDeque<usize>,
    // Number of occupied slots.
    occupied: usize,
}

impl<T> View for GenerationalVec<T> {
    type V = GenerationalVecView<T>;

    closed spec fn view(&self) -> GenerationalVecView<T> {
        GenerationalVecView { entries: self.entries@, free: self.empty_queue@ }
    }
}

impl<T> GenerationalVec<T> {
    /// The invariant of the collection: its queue of free slots is well formed, and
    /// its element count is right.
    pub closed spec fn wf(&self) -> bool {
        &&& self@.wf()
        &&& self.occupied == live_count(self.entries@)
    }

    /// Slot indices fit in `usize`.
    pub proof fn lemma_slots_fit(&self)
        ensures
            self@.entries.len() <= usize::MAX,
    {
        assert(self.entries.len() <= usize::MAX);
    }

    /// Create a new empty collection.
    pub fn new() -> (collection: Self)
        ensures
            collection.wf(),
            collection@.entries.len() == 0,
            collection@.free.len() == 0,
    {
        GenerationalVec { entries: Vec::new(), empty_queue: VecDeque::new(), occupied: 0 }
    }

    /// Create a new empty collection with room for `capacity` slots.
    pub fn with_capacity(capacity: usize) -> (collection: Self)
        ensures
            collection.wf(),
            collection@.entries.len() == 0,
            collection@.free.len() == 0,
    {
        GenerationalVec {
            entries: Vec::with_capacity(capacity),
            empty_queue: VecDeque::new(),
            occupied: 0,
        }
    }

    /// Remove an element from the collection. A stale or unknown id removes nothing.
    pub fn remove(&mut self, id: GenerationalId) -> (value: Option<T>)
        requires
            old(self).wf(),
        ensures
            final(self).wf(),
            final(self)@ == old(self)@.removed(id),
            value == old(self)@.get(id),
    {
        if id.index < self.entries.len() && self.entries[id.index].generation == id.generation
            && self.entries[id.index].inner.is_some() {
            let entry = &mut self.entries[id.index];
            let value = entry.inner.take();
            if id.generation < u32::MAX {
                self.empty_queue.push_back(id.index);
            }
            proof {
                lemma_live_count_update(
                    old(self).entries@,
                    id.index as int,
                    Entry { generation: id.generation, inner: None },
                );
                lemma_live_count_bound(self.entries@);
                assert(self.entries@ =~= old(self)@.removed(id).entries);
                assert(self.empty_queue@ =~= old(self)@.removed(id).free);
            }
            self.occupied = self.occupied - 1;
            value
        } else {
            None
        }
    }

    /// Add an element to the collection, in the oldest free slot if there is one.
    pub fn add(&mut self, value: T) -> (id: GenerationalId)
        requires
            old(self).wf(),
        ensures
            final(self).wf(),
            final(self)@ == old(self)@.added(value),
            id == old(self)@.next_id(),
            final(self)@.contains(id),
            final(self)@.get(id) == Some(value),
    {
        proof {
            lemma_live_count_bound(self.entries@);
        }
        if let Some(index) = self.empty_queue.pop_front() {
            assert(index == old(self)@.free[0]);
            let entry = &mut self.entries[index];
            let generation = entry.generation + 1;
            entry.generation = generation;
            entry.inner = Some(value);
            proof {
                lemma_live_count_update(
                    old(self).entries@,
                    index as int,
                    Entry { generation, inner: Some(value) },
                );
                lemma_live_count_bound(self.entries@);
                assert(self.entries.len() <= usize::MAX);
                assert(self.entries@ =~= old(self)@.added(value).entries);
                lemma_added_wf(old(self)@, value);
            }
            self.occupied = self.occupied + 1;
            GenerationalId { index, generation }
        } else {
            let index = self.entries.len();
            self.entries.push(Entry { generation: 0, inner: Some(value) });
            proof {
                lemma_live_count_push(
                    old(self).entries@,
                    Entry { generation: 0, inner: Some(value) },
                );
                assert(self.entries.len() <= usize::MAX);
            }
            self.occupied = self.occupied + 1;
            GenerationalId { index, generation: 0 }
        }
    }

    /// Whether `id` names an element that is in the collection now.
    pub fn is_valid(&self, id: GenerationalId) -> (valid: bool)
        ensures
            valid == self@.contains(id),
    {
        id.index < self.entries.len() && self.entries[id.index].generation == id.generation
            && self.entries[id.index].inner.is_some()
    }

    /// Get a reference to an element.
    pub fn get(&self, id: GenerationalId) -> (value: Option<&T>)
        ensures
            value is Some == self@.contains(id),
            value is Some ==> self@.get(id) == Some(*value->0),
    {
        if id.index < self.entries.len() {
            let entry = &self.entries[id.index];
            if entry.generation == id.generation {
                return entry.inner.as_ref();
            }
        }
        None
    }

    /// Get a mutable reference to an element. What is written through it becomes
    /// the element's value; nothing else changes.
    pub fn get_mut(&mut self, id: GenerationalId) -> (value: Option<&mut T>)
        requires
            old(self).wf(),
        ensures
            final(self).wf(),
            match value {
                Some(element) => {
                    &&& old(self)@.get(id) == Some(*element)
                    &&& final(self)@ == old(self)@.with_value(id, *final(element))
                },
                None => {
                    &&& !old(self)@.contains(id)
                    &&& final(self)@ == old(self)@
                },
            },
    {
        if id.index < self.entries.len() && self.entries[id.index].generation == id.generation
            && self.entries[id.index].inner.is_some() {
            let entry = &mut self.entries[id.index];
            match entry.inner.as_mut() {
                Some(element) => {
                    proof {
                        lemma_live_count_update(
                            old(self).entries@,
                            id.index as int,
                            Entry { generation: id.generation, inner: Some(*final(element)) },
                        );
                    }
                    Some(element)
                },
                None => None,
            }
        } else {
            None
        }
    }

    /// Get the number of elements in the collection.
    pub fn len(&self) -> (count: usize)
        requires
            self.wf(),
        ensures
            count == self@.len(),
    {
        self.occupied
    }

    /// Check if the collection is empty.
    pub fn is_empty(&self) -> (empty: bool)
        requires
            self.wf(),
        ensures
            empty == (self@.len() == 0),
    {
        self.occupied == 0
    }

    /// The number of slots, occupied or not.
    pub fn slots(&self) -> (count: usize)
        ensures
            count == self@.entries.len(),
    {
        self.entries.len()
    }
}

impl<T> Default for GenerationalVec<T> {
    fn default() -> (collection: Self)
        ensures
            collection.wf(),
            collection@.entries.len() == 0,
            collection@.free.len() == 0,
    {
        Self::new()
    }
}

} // verus!

verus! {

/// One step in the history of a collection.
pub enum Operation<T> {
    Add(T),
    Remove(GenerationalId),
}

impl<T> GenerationalVecView<T> {
    /// The collection after one operation.
    pub open spec fn after(self, operation: Operation<T>) -> Self {
        match operation {
            Operation::Add(value) => self.added(value),
            Operation::Remove(id) => self.removed(id),
        }
    }

    /// The collection after a sequence of operations, carried out in order.
    pub open spec fn after_all(self, operations: Seq<Operation<T>>) -> Self
        decreases operations.len(),
    {
        if operations.len() == 0 {
            self
        } else {
            self.after_all(operations.drop_last()).after(operations.last())
        }
    }

    /// The slot that `id` points at has moved on: it is in a later generation than
    /// `id`, or it is in the generation of `id` and empty.
    pub open spec fn outlived(self, id: GenerationalId) -> bool {
        &&& id.index < self.entries.len()
        &&& {
            ||| self.entries[id.index as int].generation > id.generation
            ||| {
                &&& self.entries[id.index as int].generation == id.generation
                &&& self.entries[id.index as int].inner is None
            }
        }
    }
}

/// Adding keeps the queue of free slots well formed.
pub proof fn lemma_added_wf<T>(view: GenerationalVecView<T>, value: T)
    requires
        view.wf(),
    ensures
        view.added(value).wf(),
{
    let after = view.added(value);
    if view.free.len() > 0 {
        assert forall|i: int| 0 <= i < after.free.len() implies {
            &&& (#[trigger] after.free[i]) < after.entries.len()
            &&& after.entries[after.free[i] as int].inner is None
            &&& after.entries[after.free[i] as int].generation < u32::MAX
        } by {
            assert(after.free[i] == view.free[i + 1]);
        }
        assert forall|i: int, j: int| 0 <= i < j < after.free.len() implies after.free[i]
            != after.free[j] by {
            assert(after.free[i] == view.free[i + 1]);
            assert(after.free[j] == view.free[j + 1]);
        }
    }
}

/// Removing keeps the queue of free slots well formed.
pub proof fn lemma_removed_wf<T>(view: GenerationalVecView<T>, id: GenerationalId)
    requires
        view.wf(),
    ensures
        view.removed(id).wf(),
{
}

/// Any sequence of operations keeps the queue of free slots well formed.
pub proof fn lemma_after_all_wf<T>(view: GenerationalVecView<T>, operations: Seq<Operation<T>>)
    requires
        view.wf(),
    ensures
        view.after_all(operations).wf(),
    decreases operations.len(),
{
    if operations.len() > 0 {
        lemma_after_all_wf(view, operations.drop_last());
        let before = view.after_all(operations.drop_last());
        match operations.last() {
            Operation::Add(value) => lemma_added_wf(before, value),
            Operation::Remove(id) => lemma_removed_wf(before, id),
        }
    }
}

/// A slot that has outlived an id stays that way whatever is done to the
/// collection: generations only grow, and an empty slot is filled only in a new
/// generation.
pub proof fn lemma_outlived_is_stable<T>(
    view: GenerationalVecView<T>,
    id: GenerationalId,
    operations: Seq<Operation<T>>,
)
    requires
        view.wf(),
        view.outlived(id),
    ensures
        view.after_all(operations).outlived(id),
    decreases operations.len(),
{
    if operations.len() > 0 {
        lemma_outlived_is_stable(view, id, operations.drop_last());
        lemma_after_all_wf(view, operations.drop_last());
        let before = view.after_all(operations.drop_last());
        if before.free.len() > 0 {
            assert(before.free[0] < before.entries.len());
        }
    }
}

/// Once the element that an id names has been removed, no sequence of additions
/// and removals makes that id name an element again: every lookup with it fails,
/// also after its slot has been given to a new element, and no later addition hands
/// the same id out (as long as slot indices fit in `usize`, which they do in any
/// collection that exists in memory).
pub proof fn lemma_removed_id_stays_stale<T>(
    view: GenerationalVecView<T>,
    id: GenerationalId,
    operations: Seq<Operation<T>>,
)
    requires
        view.wf(),
        view.contains(id),
    ensures
        !view.removed(id).after_all(operations).contains(id),
        view.removed(id).after_all(operations).get(id) is None,
        view.removed(id).after_all(operations).entries.len() <= usize::MAX
            ==> view.removed(id).after_all(operations).next_id() != id,
{
    let removed = view.removed(id);
    lemma_removed_wf(view, id);
    lemma_outlived_is_stable(removed, id, operations);
    lemma_after_all_wf(removed, operations);
    let later = removed.after_all(operations);
    if later.free.len() > 0 {
        assert(later.free[0] < later.entries.len());
    }
}

/// When the only free slot is the one that `id` has just given up, the next
/// addition takes that slot, in the generation after that of `id`. (A slot in its
/// last generation, `u32::MAX`, has no next one and is not reused.)
pub proof fn lemma_freed_slot_is_reused<T>(
    view: GenerationalVecView<T>,
    id: GenerationalId,
    value: T,
)
    requires
        view.wf(),
        view.contains(id),
        view.free.len() == 0,
        id.generation < u32::MAX,
    ensures
        view.removed(id).next_id() == (GenerationalId {
            index: id.index,
            generation: (id.generation + 1) as u32,
        }),
        view.removed(id).added(value).contains(view.removed(id).next_id()),
        view.removed(id).added(value).entries.len() == view.entries.len(),
{
}

} // verus!
