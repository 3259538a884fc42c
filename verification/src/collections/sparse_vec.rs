//! A growable array with holes, indexed by slot.

use vstd::prelude::*;

verus! {

/// The column `s` after a value has been written at `index`: slots between the old
/// end and `index` become holes, and nothing is ever dropped from the end.
pub open spec fn written<T>(s: Seq<Option<T>>, index: int, value: T) -> Seq<Option<T>>
    recommends
        0 <= index,
{
    if index < s.len() {
        s.update(index, Some(value))
    } else {
        s + Seq::new((index - s.len()) as nat, |i: int| None::<T>).push(Some(value))
    }
}

/// What the column `s` holds at `index`: a hole beyond its end.
pub open spec fn slot_at<T>(s: Seq<Option<T>>, index: int) -> Option<T> {
    if 0 <= index < s.len() {
        s[index]
    } else {
        None
    }
}

/// The column `s` after the slot at `index` has been cleared.
pub open spec fn cleared<T>(s: Seq<Option<T>>, index: int) -> Seq<Option<T>> {
    if 0 <= index < s.len() {
        s.update(index, None)
    } else {
        s
    }
}

/// Index of the first occupied slot of `s` at or after `from`; `s.len()` if there is
/// none.
pub open spec fn first_occupied<T>(s: Seq<Option<T>>, from: int) -> int
    decreases s.len() - from,
{
    if from < 0 || from >= s.len() {
        s.len() as int
    } else if s[from] is Some {
        from
    } else {
        first_occupied(s, from + 1)
    }
}

/// The indices of the occupied slots of `s` at or after `from`, in ascending order.
pub open spec fn occupied_slots<T>(s: Seq<Option<T>>, from: int) -> Seq<int>
    decreases s.len() - from,
{
    if from < 0 || from >= s.len() {
        Seq::empty()
    } else if s[from] is Some {
        seq![from] + occupied_slots(s, from + 1)
    } else {
        occupied_slots(s, from + 1)
    }
}

/// `first_occupied(s, from)` is the least index at or after `from` whose slot is
/// occupied, or the length of `s`.
pub proof fn lemma_first_occupied<T>(s: Seq<Option<T>>, from: int)
    requires
        0 <= from <= s.len(),
    ensures
        from <= first_occupied(s, from) <= s.len(),
        first_occupied(s, from) < s.len() ==> s[first_occupied(s, from)] is Some,
        forall|i: int| from <= i < first_occupied(s, from) ==> s[i] is None,
    decreases s.len() - from,
{
    if from < s.len() && s[from] is None {
        lemma_first_occupied(s, from + 1);
    }
}

/// Holes in front do not matter: if every slot in `from..upto` is a hole, the first
/// occupied slot after `from` is the first one after `upto`.
pub proof fn lemma_first_occupied_skips_holes<T>(s: Seq<Option<T>>, from: int, upto: int)
    requires
        0 <= from <= upto <= s.len(),
        forall|i: int| from <= i < upto ==> s[i] is None,
    ensures
        first_occupied(s, from) == first_occupied(s, upto),
    decreases upto - from,
{
    if from < upto {
        lemma_first_occupied_skips_holes(s, from + 1, upto);
    }
}

/// Writing at `index` never shrinks a column, and leaves it long enough to hold
/// `index`: exactly as long as it was, or `index + 1` if that is more.
pub proof fn lemma_written_grows<T>(s: Seq<Option<T>>, index: int, value: T)
    requires
        0 <= index,
    ensures
        written(s, index, value).len() >= s.len(),
        written(s, index, value).len() >= index + 1,
        written(s, index, value).len() == s.len() || written(s, index, value).len() == index + 1,
{
}

/// Writing at `index` puts the value there, fills the slots between the old end and
/// `index` with holes, and leaves every other slot as it was.
pub proof fn lemma_written_slots<T>(s: Seq<Option<T>>, index: int, value: T)
    requires
        0 <= index,
    ensures
        slot_at(written(s, index, value), index) == Some(value),
        forall|other: int|
            other != index ==> #[trigger] slot_at(written(s, index, value), other) == slot_at(
                s,
                other,
            ),
{
}

/// Where the slot at `index` is empty, a first write returns nothing, and a second
/// write that follows it returns the value of the first, and leaves the column as if
/// only the second had been made.
pub proof fn lemma_write_twice<T>(s: Seq<Option<T>>, index: int, first: T, second: T)
    requires
        0 <= index,
        slot_at(s, index) is None,
    ensures
        slot_at(s, index) == None::<T>,
        slot_at(written(s, index, first), index) == Some(first),
        written(written(s, index, first), index, second) == written(s, index, second),
{
    assert(written(written(s, index, first), index, second) =~= written(s, index, second));
}

/// Clearing empties the slot at `index`, keeps the length of the column, and leaves
/// every other slot as it was.
pub proof fn lemma_cleared_slots<T>(s: Seq<Option<T>>, index: int)
    ensures
        cleared(s, index).len() == s.len(),
        slot_at(cleared(s, index), index) is None,
        forall|other: int|
            other != index ==> #[trigger] slot_at(cleared(s, index), other) == slot_at(s, other),
{
}

/// The occupied slots after `from` are the first of them and those after it.
pub proof fn lemma_occupied_slots_step<T>(s: Seq<Option<T>>, from: int)
    requires
        0 <= from <= s.len(),
    ensures
        first_occupied(s, from) == s.len() ==> occupied_slots(s, from) == Seq::<int>::empty(),
        first_occupied(s, from) < s.len() ==> occupied_slots(s, from) == seq![
            first_occupied(s, from),
        ] + occupied_slots(s, first_occupied(s, from) + 1),
    decreases s.len() - from,
{
    if from < s.len() && s[from] is None {
        lemma_occupied_slots_step(s, from + 1);
    }
}

/// `occupied_slots(s, from)` lists, in strictly ascending order, exactly the indices
/// at or after `from` whose slot is occupied.
pub proof fn lemma_occupied_slots<T>(s: Seq<Option<T>>, from: int)
    requires
        0 <= from <= s.len(),
    ensures
        forall|i: int|
            occupied_slots(s, from).contains(i) <==> from <= i < s.len() && s[i] is Some,
        forall|m: int, n: int|
            0 <= m < n < occupied_slots(s, from).len() ==> occupied_slots(s, from)[m]
                < occupied_slots(s, from)[n],
    decreases s.len() - from,
{
    let slots = occupied_slots(s, from);
    if from < s.len() {
        lemma_occupied_slots(s, from + 1);
        let rest = occupied_slots(s, from + 1);
        if s[from] is Some {
            assert forall|i: int| slots.contains(i) <==> from <= i < s.len() && s[i] is Some by {
                if slots.contains(i) {
                    let at = choose|at: int| 0 <= at < slots.len() && slots[at] == i;
                    if at > 0 {
                        assert(rest[at - 1] == i);
                        assert(rest.contains(i));
                    }
                }
                if from <= i < s.len() && s[i] is Some {
                    if i == from {
                        assert(slots[0] == i);
                    } else {
                        assert(rest.contains(i));
                        let at = choose|at: int| 0 <= at < rest.len() && rest[at] == i;
                        assert(slots[at + 1] == i);
                    }
                }
            }
            assert forall|m: int, n: int| 0 <= m < n < slots.len() implies slots[m] < slots[n] by {
                assert(slots[n] == rest[n - 1]);
                assert(rest.contains(rest[n - 1]));
                if m > 0 {
                    assert(slots[m] == rest[m - 1]);
                }
            }
        }
    }
}

/// Vec-like collection that supports sparse indices.
pub struct SparseVec<T> {
    data: Vec<Option<T>>,
}

impl<T> View for SparseVec<T> {
    type V = Seq<Option<T>>;

    closed spec fn view(&self) -> Seq<Option<T>> {
        self.data@
    }
}

impl<T> SparseVec<T> {
    /// An empty column.
    pub fn new() -> (column: Self)
        ensures
            column@ == Seq::<Option<T>>::empty(),
    {
        SparseVec { data: Vec::new() }
    }

    /// Writes `component` at `index`, growing the column with holes as needed, and
    /// returns what the slot held before.
    pub fn replace(&mut self, index: usize, component: T) -> (previous: Option<T>)
        requires
            index < usize::MAX,
        ensures
            final(self)@ == written(old(self)@, index as int, component),
            previous == slot_at(old(self)@, index as int),
            final(self)@.len() >= old(self)@.len(),
            final(self)@.len() >= index + 1,
    {
        let ghost before = self.data@;
        while self.data.len() <= index
            invariant
                index < usize::MAX,
                before.len() <= self.data@.len(),
                self.data@.len() > before.len() ==> self.data@.len() <= index + 1,
                self.data@ == before + Seq::new(
                    (self.data@.len() - before.len()) as nat,
                    |i: int| None::<T>,
                ),
            decreases index + 1 - self.data@.len(),
        {
            self.data.push(None);
        }
        let slot = &mut self.data[index];
        let previous = slot.take();
        *slot = Some(component);
        proof {
            assert(self.data@ =~= written(before, index as int, component));
        }
        previous
    }

    /// The component at `index`, if the slot is in range and occupied.
    pub fn get(&self, index: usize) -> (component: Option<&T>)
        ensures
            component is Some == slot_at(self@, index as int) is Some,
            component is Some ==> *component->0 == slot_at(self@, index as int)->0,
    {
        if index < self.data.len() {
            self.data[index].as_ref()
        } else {
            None
        }
    }

    /// Mutable access to the component at `index`, if the slot is in range and
    /// occupied. Whatever is written through the reference lands in that slot.
    pub fn get_mut(&mut self, index: usize) -> (component: Option<&mut T>)
        ensures
            match component {
                Some(c) => {
                    &&& slot_at(old(self)@, index as int) == Some(*c)
                    &&& final(self)@ == old(self)@.update(index as int, Some(*final(c)))
                },
                None => {
                    &&& slot_at(old(self)@, index as int) is None
                    &&& final(self)@ == old(self)@
                },
            },
    {
        if index < self.data.len() {
            let slot = &mut self.data[index];
            slot.as_mut()
        } else {
            None
        }
    }

    /// Clears the slot at `index` and returns what it held; out of range, nothing
    /// changes.
    pub fn remove(&mut self, index: usize) -> (previous: Option<T>)
        ensures
            final(self)@ == cleared(old(self)@, index as int),
            previous == slot_at(old(self)@, index as int),
    {
        if index < self.data.len() {
            let slot = &mut self.data[index];
            slot.take()
        } else {
            None
        }
    }

    /// Returns an iterator over the elements, in ascending order of their slots.
    pub fn iter(&self) -> (iter: Iter<'_, T>)
        ensures
            iter.wf(),
            iter.slots() == self@,
            iter.position() == 0,
    {
        Iter::new(self.data.as_slice())
    }

    /// Returns a mutable iterator over the elements, in ascending order of their
    /// slots. The column keeps what is written through it.
    pub fn iter_mut(&mut self) -> (iter: IterMut<'_, T>)
        ensures
            !iter.exhausted(),
            iter.remaining() == old(self)@,
            iter.position() == 0,
            final(iter.borrowed())@ == final(self)@,
    {
        IterMut::new(self.data.as_mut_slice())
    }

    /// The slots of the column, holes included.
    pub fn data_slice(&self) -> (slots: &[Option<T>])
        ensures
            slots@ == self@,
    {
        self.data.as_slice()
    }

    /// The slots of the column, holes included, for writing. The column keeps
    /// whatever the slice holds when the borrow ends.
    pub fn data_mut_slice(&mut self) -> (slots: &mut [Option<T>])
        ensures
            slots@ == old(self)@,
            final(slots)@ == final(self)@,
    {
        self.data.as_mut_slice()
    }
}

} // verus!

verus! {

impl<T> Default for SparseVec<T> {
    fn default() -> (column: Self)
        ensures
            column@ == Seq::<Option<T>>::empty(),
    {
        Self::new()
    }
}

/// Takes the first slot off what is left of a mutably borrowed column. The slot that
/// is handed out and the rest together make up what the borrow leaves behind.
pub fn take_first_slot<'a, T>(rest: &mut Option<&'a mut [Option<T>]>) -> (slot: Option<
    &'a mut Option<T>,
>)
    ensures
        match slot {
            Some(first) => {
                &&& *old(rest) is Some
                &&& *final(rest) is Some
                &&& old(rest)->0@.len() > 0
                &&& *first == old(rest)->0@[0]
                &&& final(rest)->0@ == old(rest)->0@.skip(1)
                &&& final(old(rest)->0)@ == seq![*final(first)] + final(final(rest)->0)@
            },
            None => {
                &&& *final(rest) is None
                &&& *old(rest) is Some ==> {
                    &&& old(rest)->0@.len() == 0
                    &&& final(old(rest)->0)@ == old(rest)->0@
                }
            },
        },
{
    match rest.take() {
        None => None,
        Some(slots) => {
            if slots.len() == 0 {
                None
            } else {
                let ghost before = slots@;
                let (head, tail) = slots.split_at_mut(1);
                proof {
                    assert(tail@ =~= before.skip(1));
                }
                *rest = Some(tail);
                head.first_mut()
            }
        },
    }
}

} // verus!

verus! {

/// Walks a shared column and yields a reference to each value in it.
pub struct Iter<'a, T> {
    slice: &'a [Option<T>],
    next_slot: usize,
}

impl<'a, T> Iter<'a, T> {
    /// The whole column being walked, holes included.
    pub closed spec fn slots(&self) -> Seq<Option<T>> {
        self.slice@
    }

    /// Slot index of the first slot not yet visited.
    pub closed spec fn position(&self) -> int {
        self.next_slot as int
    }

    /// The iterator never runs past the end of its column.
    pub closed spec fn wf(&self) -> bool {
        self.next_slot <= self.slice@.len()
    }

    /// An iterator at the start of `slice`.
    pub fn new(slice: &'a [Option<T>]) -> (iter: Self)
        ensures
            iter.wf(),
            iter.slots() == slice@,
            iter.position() == 0,
    {
        Iter { slice, next_slot: 0 }
    }

    /// The next component: the one in the first occupied slot at or after
    /// `position`. `None` once no occupied slot is left.
    pub fn next(&mut self) -> (item: Option<&'a T>)
        requires
            old(self).wf(),
        ensures
            final(self).wf(),
            final(self).slots() == old(self).slots(),
            ({
                let s = old(self).slots();
                let k = first_occupied(s, old(self).position());
                match item {
                    Some(component) => {
                        &&& old(self).position() <= k < s.len()
                        &&& s[k] == Some(*component)
                        &&& final(self).position() == k + 1
                        &&& occupied_slots(s, old(self).position()) == seq![k] + occupied_slots(
                            s,
                            final(self).position(),
                        )
                    },
                    None => {
                        &&& k == s.len()
                        &&& final(self).position() == s.len()
                        &&& occupied_slots(s, old(self).position()) == Seq::<int>::empty()
                    },
                }
            }),
    {
        let ghost start = self.next_slot as int;
        proof {
            lemma_occupied_slots_step(self.slice@, start);
        }
        while self.next_slot < self.slice.len()
            invariant
                self.slice == old(self).slice,
                start == old(self).next_slot,
                start <= self.next_slot <= self.slice@.len(),
                forall|i: int| start <= i < self.next_slot ==> self.slice@[i] is None,
            decreases self.slice@.len() - self.next_slot,
        {
            let index = self.next_slot;
            self.next_slot = self.next_slot + 1;
            if let Some(component) = self.slice[index].as_ref() {
                proof {
                    lemma_first_occupied_skips_holes(self.slice@, start, index as int);
                    lemma_occupied_slots_step(self.slice@, start);
                }
                return Some(component);
            }
        }
        proof {
            lemma_first_occupied_skips_holes(self.slice@, start, self.slice@.len() as int);
        }
        None
    }
}

/// Walks an exclusively borrowed column and yields a mutable reference to each
/// value in it.
pub struct IterMut<'a, T> {
    rest: Option<&'a mut [Option<T>]>,
    visited: Ghost<int>,
}

impl<'a, T> IterMut<'a, T> {
    /// Nothing is left to visit, and the borrow of the column has ended.
    pub closed spec fn exhausted(&self) -> bool {
        self.rest is None
    }

    /// The borrow of the slots not yet visited (meaningful until `exhausted`).
    pub closed spec fn borrowed(&self) -> &'a mut [Option<T>] {
        self.rest->0
    }

    /// The slots not yet visited, holes included.
    pub closed spec fn remaining(&self) -> Seq<Option<T>> {
        match self.rest {
            Some(slots) => slots@,
            None => Seq::empty(),
        }
    }

    /// Slot index of the first slot not yet visited.
    pub closed spec fn position(&self) -> int {
        self.visited@
    }

    /// An iterator at the start of `slice`.
    pub fn new(slice: &'a mut [Option<T>]) -> (iter: Self)
        ensures
            !iter.exhausted(),
            iter.remaining() == old(slice)@,
            iter.position() == 0,
            final(iter.borrowed())@ == final(slice)@,
    {
        IterMut { rest: Some(slice), visited: Ghost(0) }
    }

    /// The next component: the one in the first occupied slot that is left. What the
    /// caller writes through it lands in that slot; the holes passed over stay holes.
    pub fn next(&mut self) -> (item: Option<&'a mut T>)
        ensures
            ({
                let s = old(self).remaining();
                let k = first_occupied(s, 0);
                match item {
                    Some(component) => {
                        &&& 0 <= k < s.len()
                        &&& s[k] == Some(*component)
                        &&& !old(self).exhausted()
                        &&& !final(self).exhausted()
                        &&& final(self).remaining() == s.skip(k + 1)
                        &&& final(self).position() == old(self).position() + k + 1
                        &&& final(old(self).borrowed())@ == s.subrange(0, k).push(
                            Some(*final(component)),
                        ) + final(final(self).borrowed())@
                    },
                    None => {
                        &&& k == s.len()
                        &&& final(self).exhausted()
                        &&& final(self).position() == old(self).position() + s.len()
                        &&& !old(self).exhausted() ==> final(old(self).borrowed())@ == s
                    },
                }
            }),
    {
        if self.rest.is_none() {
            return None;
        }
        let ghost s = self.remaining();
        let ghost mut passed: int = 0;
        loop
            invariant
                !old(self).exhausted(),
                s == old(self).remaining(),
                self.rest is Some,
                0 <= passed <= s.len(),
                forall|i: int| 0 <= i < passed ==> s[i] is None,
                self.remaining() == s.skip(passed),
                self.visited@ == old(self).visited@ + passed,
                final(old(self).borrowed())@ == s.subrange(0, passed) + final(self.borrowed())@,
            decreases s.len() - passed,
        {
            match take_first_slot(&mut self.rest) {
                None => {
                    proof {
                        lemma_first_occupied_skips_holes(s, 0, passed);
                        assert(s.subrange(0, passed) =~= s);
                    }
                    return None;
                },
                Some(slot) => {
                    self.visited = Ghost(self.visited@ + 1);
                    proof {
                        assert(s.skip(passed).skip(1) =~= s.skip(passed + 1));
                    }
                    match slot.as_mut() {
                        Some(component) => {
                            proof {
                                lemma_first_occupied_skips_holes(s, 0, passed);
                                let head = s.subrange(0, passed);
                                let tail = final(self.borrowed())@;
                                let written = Some(*final(component));
                                assert(head + (seq![written] + tail) =~= head.push(written) + tail);
                            }
                            return Some(component);
                        },
                        None => {
                            proof {
                                let head = s.subrange(0, passed);
                                let tail = final(self.borrowed())@;
                                assert(head + (seq![None::<T>] + tail) =~= s.subrange(
                                    0,
                                    passed + 1,
                                ) + tail);
                                passed = passed + 1;
                            }
                        },
                    }
                },
            }
        }
    }
}

} // verus!
