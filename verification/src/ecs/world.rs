//! The world: the registry of entities and the table of component columns.

use crate::collections::generational_vec::{GenerationalId, GenerationalVec};
use crate::collections::sparse_vec::{cleared, slot_at, written, SparseVec};
use crate::ecs::borrow::{BorrowError, BorrowLocks};
use crate::ecs::component::{Component, ErasedColumn};
use crate::ecs::iter::FromWorld;
use crate::ecs::system::System;
use vstd::prelude::*;

verus! {

/// The table of columns of a world: at most one column for each component type,
/// found by the key of the type.
pub struct Components<E> {
    // The key under which each column is filed; `keys[slot]` belongs to
    // `columns[slot]`.
    keys: Vec<u64>,
    columns: Vec<E>,
}

impl<E: ErasedColumn> Components<E> {
    /// The keys of the registered component types, in the order of the table.
    pub closed spec fn keys(&self) -> Seq<u64> {
        self.keys@
    }

    /// The columns, in their erased form, in the order of the table.
    pub closed spec fn columns(&self) -> Seq<E> {
        self.columns@
    }

    /// Every key has its column, every column is filed under the key of the type it
    /// holds, and no key occurs twice.
    pub open spec fn wf(&self) -> bool {
        &&& self.keys().len() == self.columns().len()
        &&& forall|slot: int|
            0 <= slot < self.columns().len() ==> (#[trigger] self.columns()[slot]).type_key()
                == self.keys()[slot]
        &&& forall|slot: int, other: int|
            0 <= slot < other < self.keys().len() ==> self.keys()[slot] != self.keys()[other]
    }

    /// A column is filed under `key`.
    pub open spec fn is_registered(&self, key: u64) -> bool {
        self.keys().contains(key)
    }

    /// The place in the table of the column filed under `key`.
    pub open spec fn slot_of(&self, key: u64) -> int {
        self.keys().index_of(key)
    }

    /// The column filed under `key`, in its erased form.
    pub open spec fn erased(&self, key: u64) -> E {
        self.columns()[self.slot_of(key)]
    }

    /// The slots of the column of component type `T`. Meaningful where `T` is
    /// registered.
    pub open spec fn column<T: Component<Erased = E>>(&self) -> Seq<Option<T>> {
        T::column_of(&self.erased(T::spec_type_key()))
    }

    /// The table has the same keys in the same places as `before`, and every column
    /// whose place is not in `slots` is what it was.
    pub open spec fn same_outside(&self, before: &Self, slots: Set<int>) -> bool {
        &&& self.keys() == before.keys()
        &&& self.columns().len() == before.columns().len()
        &&& forall|other: int|
            0 <= other < self.columns().len() && !slots.contains(other) ==> (
            #[trigger] self.columns()[other]) == before.columns()[other]
    }

    /// In a well-formed table, a key that is found at a slot is found nowhere else.
    pub proof fn lemma_slot_of(&self, slot: int)
        requires
            self.wf(),
            0 <= slot < self.keys().len(),
        ensures
            self.is_registered(self.keys()[slot]),
            self.slot_of(self.keys()[slot]) == slot,
    {
        let key = self.keys()[slot];
        let found = self.keys().index_of(key);
        assert(0 <= found < self.keys().len() && self.keys()[found] == key);
    }

    /// A registered key has a slot in the table, and that slot holds a column of
    /// the type of the key.
    pub proof fn lemma_registered(&self, key: u64)
        requires
            self.wf(),
            self.is_registered(key),
        ensures
            0 <= self.slot_of(key) < self.columns().len(),
            self.keys()[self.slot_of(key)] == key,
            self.erased(key).type_key() == key,
    {
        let found = self.keys().index_of(key);
        assert(0 <= found < self.keys().len() && self.keys()[found] == key);
    }

    /// An empty table.
    pub fn new() -> (components: Self)
        ensures
            components.wf(),
            components.keys().len() == 0,
    {
        Components { keys: Vec::new(), columns: Vec::new() }
    }

    /// The number of registered component types.
    pub fn len(&self) -> (count: usize)
        ensures
            count == self.keys().len(),
    {
        self.keys.len()
    }

    /// Whether no component type is registered.
    pub fn is_empty(&self) -> (empty: bool)
        ensures
            empty == (self.keys().len() == 0),
    {
        self.keys.len() == 0
    }

    /// The place in the table of the column filed under `key`, if there is one.
    pub fn find(&self, key: u64) -> (slot: Option<usize>)
        requires
            self.wf(),
        ensures
            slot is Some == self.is_registered(key),
            slot is Some ==> slot->0 == self.slot_of(key) && slot->0 < self.columns().len(),
    {
        let mut slot: usize = 0;
        while slot < self.keys.len()
            invariant
                self.wf(),
                slot <= self.keys().len(),
                forall|earlier: int| 0 <= earlier < slot ==> self.keys()[earlier] != key,
            decreases self.keys().len() - slot,
        {
            if self.keys[slot] == key {
                proof {
                    self.lemma_slot_of(slot as int);
                }
                return Some(slot);
            }
            slot = slot + 1;
        }
        None
    }

    /// Makes room for components of type `T`: files a fresh, empty column under
    /// the key of `T`. If one was there already, the fresh one takes its place.
    pub fn register<T: Component<Erased = E>>(&mut self)
        requires
            old(self).wf(),
        ensures
            final(self).wf(),
            final(self).is_registered(T::spec_type_key()),
            final(self).column::<T>() == Seq::<Option<T>>::empty(),
            old(self).is_registered(T::spec_type_key()) ==> final(self).same_outside(
                old(self),
                set![old(self).slot_of(T::spec_type_key())],
            ),
            !old(self).is_registered(T::spec_type_key()) ==> {
                &&& final(self).keys() == old(self).keys().push(T::spec_type_key())
                &&& final(self).columns().drop_last() == old(self).columns()
            },
    {
        let key = T::type_key();
        let column = T::erase(SparseVec::new());
        match self.find(key) {
            Some(slot) => {
                self.columns[slot] = column;
                proof {
                    self.lemma_slot_of(slot as int);
                }
            },
            None => {
                self.keys.push(key);
                self.columns.push(column);
                proof {
                    self.lemma_slot_of(old(self).keys().len() as int);
                    assert(self.columns().drop_last() =~= old(self).columns());
                }
            },
        }
    }

    /// Clears the slot at `index` in every column, whatever its type.
    pub fn remove_slot(&mut self, index: usize)
        requires
            old(self).wf(),
        ensures
            final(self).wf(),
            final(self).keys() == old(self).keys(),
            final(self).columns().len() == old(self).columns().len(),
            forall|slot: int|
                0 <= slot < final(self).columns().len() ==> (
                #[trigger] final(self).columns()[slot]).cleared_from(
                    &old(self).columns()[slot],
                    index as int,
                ),
    {
        let mut slot: usize = 0;
        while slot < self.columns.len()
            invariant
                self.wf(),
                self.keys() == old(self).keys(),
                self.columns().len() == old(self).columns().len(),
                slot <= self.columns().len(),
                forall|done: int|
                    0 <= done < slot ==> (#[trigger] self.columns()[done]).cleared_from(
                        &old(self).columns()[done],
                        index as int,
                    ),
                forall|ahead: int|
                    slot <= ahead < self.columns().len() ==> self.columns()[ahead] == old(
                        self,
                    ).columns()[ahead],
            decreases self.columns().len() - slot,
        {
            self.columns[slot].remove_slot(index);
            slot = slot + 1;
        }
    }

    /// A shared borrow of the column of `T`: its slots, holes included. `None` if
    /// `T` is not registered.
    pub fn borrow_slice<T: Component<Erased = E>>(&self) -> (slots: Option<&[Option<T>]>)
        requires
            self.wf(),
        ensures
            slots is Some == self.is_registered(T::spec_type_key()),
            slots is Some ==> slots->0@ == self.column::<T>(),
    {
        match self.find(T::type_key()) {
            Some(slot) => {
                match T::downcast(&self.columns[slot]) {
                    Some(column) => Some(column.data_slice()),
                    None => None,
                }
            },
            None => None,
        }
    }

    /// An exclusive borrow of the column of `T`. `None` if `T` is not registered.
    /// The table keeps what the column holds when the borrow ends; nothing else in
    /// it changes.
    pub fn borrow_mut<T: Component<Erased = E>>(&mut self) -> (column: Option<&mut SparseVec<T>>)
        requires
            old(self).wf(),
        ensures
            final(self).wf(),
            match column {
                Some(column) => {
                    &&& old(self).is_registered(T::spec_type_key())
                    &&& column@ == old(self).column::<T>()
                    &&& final(self).column::<T>() == final(column)@
                    &&& final(self).same_outside(
                        old(self),
                        set![old(self).slot_of(T::spec_type_key())],
                    )
                },
                None => {
                    &&& !old(self).is_registered(T::spec_type_key())
                    &&& final(self).keys() == old(self).keys()
                    &&& final(self).columns() == old(self).columns()
                },
            },
    {
        match self.find(T::type_key()) {
            Some(slot) => {
                T::downcast_mut(&mut self.columns[slot])
            },
            None => None,
        }
    }

    /// An exclusive borrow of the slots of the column of `T`, holes included.
    /// `None` if `T` is not registered. The table keeps what the slots hold when
    /// the borrow ends; nothing else in it changes.
    pub fn borrow_mut_slice<T: Component<Erased = E>>(&mut self) -> (slots: Option<
        &mut [Option<T>],
    >)
        requires
            old(self).wf(),
        ensures
            final(self).wf(),
            match slots {
                Some(slots) => {
                    &&& old(self).is_registered(T::spec_type_key())
                    &&& slots@ == old(self).column::<T>()
                    &&& final(self).column::<T>() == final(slots)@
                    &&& final(self).same_outside(
                        old(self),
                        set![old(self).slot_of(T::spec_type_key())],
                    )
                },
                None => {
                    &&& !old(self).is_registered(T::spec_type_key())
                    &&& final(self).keys() == old(self).keys()
                    &&& final(self).columns() == old(self).columns()
                },
            },
    {
        match self.borrow_mut::<T>() {
            Some(column) => Some(column.data_mut_slice()),
            None => None,
        }
    }

    /// Shared borrows of the columns of `T1` and `T2` at once; the two may be the
    /// same type. Refused only if one of them is not registered.
    pub fn borrow_slices<T1: Component<Erased = E>, T2: Component<Erased = E>>(&self) -> (slots:
        Result<(&[Option<T1>], &[Option<T2>]), BorrowError>)
        requires
            self.wf(),
        ensures
            match slots {
                Ok((slots1, slots2)) => {
                    &&& self.is_registered(T1::spec_type_key())
                    &&& self.is_registered(T2::spec_type_key())
                    &&& slots1@ == self.column::<T1>()
                    &&& slots2@ == self.column::<T2>()
                },
                Err(error) => {
                    &&& error == BorrowError::NotRegistered
                    &&& !self.is_registered(T1::spec_type_key()) || !self.is_registered(
                        T2::spec_type_key(),
                    )
                },
            },
    {
        let slot1 = match self.find(T1::type_key()) {
            Some(slot) => slot,
            None => { return Err(BorrowError::NotRegistered); },
        };
        let slot2 = match self.find(T2::type_key()) {
            Some(slot) => slot,
            None => { return Err(BorrowError::NotRegistered); },
        };
        let mut locks = BorrowLocks::new(self.columns.len());
        if !locks.borrow_shared(slot1) || !locks.borrow_shared(slot2) {
            return Err(BorrowError::AlreadyBorrowed);
        }
        match (T1::downcast(&self.columns[slot1]), T2::downcast(&self.columns[slot2])) {
            (Some(column1), Some(column2)) => Ok((column1.data_slice(), column2.data_slice())),
            _ => Err(BorrowError::NotRegistered),
        }
    }

    /// Exclusive borrows of the columns of `T1` and `T2` at once. Refused if one of
    /// them is not registered, and if the two are the same column: then the second
    /// request finds the lock already held. The table keeps what the two columns
    /// hold when the borrows end; nothing else in it changes.
    pub fn borrow_mut_slices<T1: Component<Erased = E>, T2: Component<Erased = E>>(
        &mut self,
    ) -> (slots: Result<(&mut [Option<T1>], &mut [Option<T2>]), BorrowError>)
        requires
            old(self).wf(),
        ensures
            final(self).wf(),
            match slots {
                Ok((slots1, slots2)) => {
                    &&& old(self).is_registered(T1::spec_type_key())
                    &&& old(self).is_registered(T2::spec_type_key())
                    &&& T1::spec_type_key() != T2::spec_type_key()
                    &&& slots1@ == old(self).column::<T1>()
                    &&& slots2@ == old(self).column::<T2>()
                    &&& final(self).column::<T1>() == final(slots1)@
                    &&& final(self).column::<T2>() == final(slots2)@
                    &&& final(self).same_outside(
                        old(self),
                        set![
                            old(self).slot_of(T1::spec_type_key()),
                            old(self).slot_of(T2::spec_type_key())
                        ],
                    )
                },
                Err(error) => {
                    &&& final(self).keys() == old(self).keys()
                    &&& final(self).columns() == old(self).columns()
                    &&& error == (if old(self).is_registered(T1::spec_type_key())
                        && old(self).is_registered(T2::spec_type_key()) {
                        BorrowError::AlreadyBorrowed
                    } else {
                        BorrowError::NotRegistered
                    })
                    &&& error == BorrowError::AlreadyBorrowed ==> T1::spec_type_key()
                        == T2::spec_type_key()
                },
            },
    {
        let slot1 = match self.find(T1::type_key()) {
            Some(slot) => slot,
            None => { return Err(BorrowError::NotRegistered); },
        };
        let slot2 = match self.find(T2::type_key()) {
            Some(slot) => slot,
            None => { return Err(BorrowError::NotRegistered); },
        };
        proof {
            self.lemma_registered(T1::spec_type_key());
            self.lemma_registered(T2::spec_type_key());
        }
        let mut locks = BorrowLocks::new(self.columns.len());
        if !locks.borrow_exclusive(slot1) || !locks.borrow_exclusive(slot2) {
            return Err(BorrowError::AlreadyBorrowed);
        }
        assert(slot1 != slot2);
        let ghost before = self.columns@;
        let columns = self.columns.as_mut_slice();
        let (erased1, erased2) = if slot1 < slot2 {
            let (left, right) = columns.split_at_mut(slot2);
            (&mut left[slot1], &mut right[0])
        } else {
            let (left, right) = columns.split_at_mut(slot1);
            (&mut right[0], &mut left[slot2])
        };
        match (T1::downcast_mut(erased1), T2::downcast_mut(erased2)) {
            (Some(column1), Some(column2)) => Ok(
                (column1.data_mut_slice(), column2.data_mut_slice()),
            ),
            _ => Err(BorrowError::NotRegistered),
        }
    }
}

} // verus!

verus! {

/// A world: entities, and the components attached to them.
pub struct World<E> {
    /// The registry of entities. An entity that is removed from it directly keeps
    /// its components in their columns; `remove_entity` clears them too.
    pub entities: GenerationalVec<()>,
    /// The table of component columns.
    pub components: Components<E>,
}

impl<E: ErasedColumn> World<E> {
    /// The registry and the table are both well formed.
    pub open spec fn wf(&self) -> bool {
        &&& self.entities.wf()
        &&& self.components.wf()
    }

    /// `entity` is alive in this world: it has been created here and not removed.
    pub open spec fn is_alive(&self, entity: GenerationalId) -> bool {
        self.entities@.contains(entity)
    }

    /// A component type is registered in this world.
    pub open spec fn is_registered<T: Component<Erased = E>>(&self) -> bool {
        self.components.is_registered(T::spec_type_key())
    }

    /// The slots of the column of component type `T`.
    pub open spec fn column<T: Component<Erased = E>>(&self) -> Seq<Option<T>> {
        self.components.column::<T>()
    }

    /// The place of the column of `T` in the table of columns.
    pub open spec fn slot_of<T: Component<Erased = E>>(&self) -> int {
        self.components.slot_of(T::spec_type_key())
    }

    /// A world without entities and without component types.
    pub fn new() -> (world: Self)
        ensures
            world.wf(),
            world.entities@.entries.len() == 0,
            world.entities@.free.len() == 0,
            world.components.keys().len() == 0,
    {
        World { entities: GenerationalVec::new(), components: Components::new() }
    }

    /// Starts building a world.
    pub fn builder() -> (builder: WorldBuilder<E>)
        ensures
            builder.world().wf(),
            builder.world().entities@.entries.len() == 0,
            builder.world().entities@.free.len() == 0,
            builder.world().components.keys().len() == 0,
    {
        WorldBuilder::new()
    }

    /// Creates an entity: the oldest free slot of the registry in its next
    /// generation, or a new slot in generation 0. No column changes.
    pub fn new_entity(&mut self) -> (entity: GenerationalId)
        requires
            old(self).wf(),
        ensures
            final(self).wf(),
            entity == old(self).entities@.next_id(),
            final(self).entities@ == old(self).entities@.added(()),
            final(self).is_alive(entity),
            final(self).components == old(self).components,
    {
        self.entities.add(())
    }

    /// Removes `entity` from the world, with every component attached to it: its
    /// slot is cleared in every column, so that the entity that gets the slot next
    /// starts without components. An entity that is not alive removes nothing.
    pub fn remove_entity(&mut self, entity: GenerationalId) -> (removed: bool)
        requires
            old(self).wf(),
        ensures
            final(self).wf(),
            removed == old(self).is_alive(entity),
            final(self).entities@ == old(self).entities@.removed(entity),
            !final(self).is_alive(entity),
            final(self).components.keys() == old(self).components.keys(),
            final(self).components.columns().len() == old(self).components.columns().len(),
            removed ==> forall|slot: int|
                0 <= slot < final(self).components.columns().len() ==> (
                #[trigger] final(self).components.columns()[slot]).cleared_from(
                    &old(self).components.columns()[slot],
                    entity.index as int,
                ),
            !removed ==> final(self).components == old(self).components,
    {
        if self.entities.remove(entity).is_none() {
            return false;
        }
        self.components.remove_slot(entity.index);
        true
    }

    /// Attaches `component` to `entity`, in place of the component of that type that
    /// it has, if any, and returns the one it had. An entity that is not alive
    /// gets nothing attached: the world stays as it is and the result is `None`.
    pub fn attach_component<T: Component<Erased = E>>(
        &mut self,
        entity: GenerationalId,
        component: T,
    ) -> (previous: Option<T>)
        requires
            old(self).wf(),
            old(self).is_registered::<T>(),
        ensures
            final(self).wf(),
            final(self).entities == old(self).entities,
            final(self).components.same_outside(
                &old(self).components,
                set![old(self).slot_of::<T>()],
            ),
            old(self).is_alive(entity) ==> {
                &&& final(self).column::<T>() == written(
                    old(self).column::<T>(),
                    entity.index as int,
                    component,
                )
                &&& previous == slot_at(old(self).column::<T>(), entity.index as int)
            },
            !old(self).is_alive(entity) ==> {
                &&& final(self).column::<T>() == old(self).column::<T>()
                &&& previous is None
            },
    {
        if !self.entities.is_valid(entity) {
            return None;
        }
        proof {
            self.entities.lemma_slots_fit();
        }
        match self.components.borrow_mut::<T>() {
            Some(column) => column.replace(entity.index, component),
            None => None,
        }
    }

    /// Detaches the component of type `T` from `entity` and returns it. An entity
    /// that is not alive, or has no such component, loses nothing.
    pub fn detach_component<T: Component<Erased = E>>(
        &mut self,
        entity: GenerationalId,
    ) -> (previous: Option<T>)
        requires
            old(self).wf(),
            old(self).is_registered::<T>(),
        ensures
            final(self).wf(),
            final(self).entities == old(self).entities,
            final(self).components.same_outside(
                &old(self).components,
                set![old(self).slot_of::<T>()],
            ),
            old(self).is_alive(entity) ==> {
                &&& final(self).column::<T>() == cleared(
                    old(self).column::<T>(),
                    entity.index as int,
                )
                &&& previous == slot_at(old(self).column::<T>(), entity.index as int)
            },
            !old(self).is_alive(entity) ==> {
                &&& final(self).column::<T>() == old(self).column::<T>()
                &&& previous is None
            },
    {
        if !self.entities.is_valid(entity) {
            return None;
        }
        match self.components.borrow_mut::<T>() {
            Some(column) => column.remove(entity.index),
            None => None,
        }
    }

    /// Runs `system` on this world, once: the iterator that the system takes is made
    /// from the world, and the system is called on it. Whatever the system does, the
    /// entities, the component types and every column that its iterator does not
    /// borrow for writing stay as they are.
    pub fn execute<'world, T: FromWorld<'world, E>, S: System<'world, E, T>>(
        &'world mut self,
        system: S,
    )
        requires
            old(self).wf(),
            T::admitted_by(old(self)),
            forall|iter: T| iter.starts_on(old(self)) ==> call_requires(system, (iter,)),
        ensures
            final(self).wf(),
            final(self).entities == old(self).entities,
            final(self).components.same_outside(&old(self).components, T::writes(old(self))),
            exists|iter: T| iter.starts_on(old(self)) && call_ensures(system, (iter,), ()),
    {
        system.execute(self);
    }

    /// The component of type `T` attached to `entity`, if the entity is alive and
    /// has one.
    pub fn get_component<T: Component<Erased = E>>(&self, entity: GenerationalId) -> (component:
        Option<&T>)
        requires
            self.wf(),
            self.is_registered::<T>(),
        ensures
            component is Some == (self.is_alive(entity) && slot_at(
                self.column::<T>(),
                entity.index as int,
            ) is Some),
            component is Some ==> slot_at(self.column::<T>(), entity.index as int) == Some(
                *component->0,
            ),
    {
        if !self.entities.is_valid(entity) {
            return None;
        }
        match self.components.borrow_slice::<T>() {
            Some(slots) => {
                if entity.index < slots.len() {
                    slots[entity.index].as_ref()
                } else {
                    None
                }
            },
            None => None,
        }
    }
}

impl<E: ErasedColumn> Default for World<E> {
    fn default() -> (world: Self)
        ensures
            world.wf(),
            world.entities@.entries.len() == 0,
            world.entities@.free.len() == 0,
            world.components.keys().len() == 0,
    {
        Self::new()
    }
}

/// Collects the component types of a world before the world is used.
pub struct WorldBuilder<E> {
    world: World<E>,
}

impl<E: ErasedColumn> WorldBuilder<E> {
    /// The world as built so far.
    pub closed spec fn world(&self) -> &World<E> {
        &self.world
    }

    /// A builder of a world without component types.
    pub fn new() -> (builder: Self)
        ensures
            builder.world().wf(),
            builder.world().entities@.entries.len() == 0,
            builder.world().entities@.free.len() == 0,
            builder.world().components.keys().len() == 0,
    {
        WorldBuilder { world: World::new() }
    }

    /// Registers component type `T`: the world gets an empty column for it. Every
    /// other column, and the registry of entities, stay as they are.
    pub fn register_component<T: Component<Erased = E>>(self) -> (builder: Self)
        requires
            self.world().wf(),
        ensures
            builder.world().wf(),
            builder.world().entities == self.world().entities,
            builder.world().is_registered::<T>(),
            builder.world().column::<T>() == Seq::<Option<T>>::empty(),
            self.world().is_registered::<T>() ==> builder.world().components.same_outside(
                &self.world().components,
                set![self.world().slot_of::<T>()],
            ),
            !self.world().is_registered::<T>() ==> {
                &&& builder.world().components.keys() == self.world().components.keys().push(
                    T::spec_type_key(),
                )
                &&& builder.world().components.columns().drop_last()
                    == self.world().components.columns()
            },
    {
        let mut builder = self;
        builder.world.components.register::<T>();
        builder
    }

    /// The world that was built.
    pub fn build(self) -> (world: World<E>)
        ensures
            world == *self.world(),
    {
        self.world
    }
}

impl<E: ErasedColumn> Default for WorldBuilder<E> {
    fn default() -> (builder: Self)
        ensures
            builder.world().wf(),
            builder.world().entities@.entries.len() == 0,
            builder.world().entities@.free.len() == 0,
            builder.world().components.keys().len() == 0,
    {
        Self::new()
    }
}

} // verus!
