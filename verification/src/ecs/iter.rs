//! Iterators over the occupied slots of one column, or of two columns at once.
//!
//! Every iterator walks its column from slot 0 upwards and skips holes. What an
//! iterator has not visited yet is its `remaining` slots; `position` is the slot
//! index of the first of them.

use crate::collections::sparse_vec::{
    first_occupied, occupied_slots, take_first_slot, Iter, IterMut,
};
use crate::ecs::borrow::BorrowError;
use crate::ecs::component::{Component, ErasedColumn};
use crate::ecs::world::World;
use vstd::prelude::*;

verus! {

/// Index of the first slot at or after `from` that is occupied in both `a` and `b`;
/// the length of the shorter column if there is none.
pub open spec fn first_joint<A, B>(a: Seq<Option<A>>, b: Seq<Option<B>>, from: int) -> int
    decreases a.len() - from,
{
    if from < 0 || from >= a.len() || from >= b.len() {
        if a.len() <= b.len() {
            a.len() as int
        } else {
            b.len() as int
        }
    } else if a[from] is Some && b[from] is Some {
        from
    } else {
        first_joint(a, b, from + 1)
    }
}

/// `first_joint(a, b, from)` is the least index at or after `from` at which both
/// columns are occupied, or the length of the shorter column.
pub proof fn lemma_first_joint<A, B>(a: Seq<Option<A>>, b: Seq<Option<B>>, from: int)
    requires
        0 <= from <= a.len(),
        from <= b.len(),
    ensures
        from <= first_joint(a, b, from) <= a.len(),
        first_joint(a, b, from) <= b.len(),
        first_joint(a, b, from) < a.len() && first_joint(a, b, from) < b.len() ==> {
            &&& a[first_joint(a, b, from)] is Some
            &&& b[first_joint(a, b, from)] is Some
        },
        first_joint(a, b, from) == a.len() || first_joint(a, b, from) == b.len() || (
        first_joint(a, b, from) < a.len() && first_joint(a, b, from) < b.len()),
        forall|i: int|
            from <= i < first_joint(a, b, from) ==> a[i] is None || b[i] is None,
    decreases a.len() - from,
{
    if from < a.len() && from < b.len() && !(a[from] is Some && b[from] is Some) {
        lemma_first_joint(a, b, from + 1);
    }
}

/// Slots in front that are not occupied in both columns do not matter.
pub proof fn lemma_first_joint_skips<A, B>(
    a: Seq<Option<A>>,
    b: Seq<Option<B>>,
    from: int,
    upto: int,
)
    requires
        0 <= from <= upto <= a.len(),
        upto <= b.len(),
        forall|i: int| from <= i < upto ==> a[i] is None || b[i] is None,
    ensures
        first_joint(a, b, from) == first_joint(a, b, upto),
    decreases upto - from,
{
    if from < upto {
        lemma_first_joint_skips(a, b, from + 1, upto);
    }
}

} // verus!

verus! {

/// The slots at or after `from` that are occupied in both `a` and `b`, in ascending
/// order.
pub open spec fn joint_slots<A, B>(a: Seq<Option<A>>, b: Seq<Option<B>>, from: int) -> Seq<int>
    decreases a.len() - from,
{
    if from < 0 || from >= a.len() || from >= b.len() {
        Seq::empty()
    } else if a[from] is Some && b[from] is Some {
        seq![from] + joint_slots(a, b, from + 1)
    } else {
        joint_slots(a, b, from + 1)
    }
}

/// The components of a column by slot: a map from the index of each occupied slot
/// to what it holds.
pub open spec fn by_slot<T>(s: Seq<Option<T>>) -> Map<int, T> {
    Map::new(|i: int| 0 <= i < s.len() && s[i] is Some, |i: int| s[i]->0)
}

/// The joint slots after `from` are the first of them and those after it: what a
/// pair iterator yields next, and what it will yield after that.
pub proof fn lemma_joint_slots_step<A, B>(a: Seq<Option<A>>, b: Seq<Option<B>>, from: int)
    requires
        0 <= from <= a.len(),
        from <= b.len(),
    ensures
        first_joint(a, b, from) < a.len() && first_joint(a, b, from) < b.len()
            ==> joint_slots(a, b, from) == seq![first_joint(a, b, from)] + joint_slots(
            a,
            b,
            first_joint(a, b, from) + 1,
        ),
        !(first_joint(a, b, from) < a.len() && first_joint(a, b, from) < b.len())
            ==> joint_slots(a, b, from) == Seq::<int>::empty(),
    decreases a.len() - from,
{
    if from < a.len() && from < b.len() && !(a[from] is Some && b[from] is Some) {
        lemma_joint_slots_step(a, b, from + 1);
    }
}

/// `joint_slots(a, b, from)` lists, in strictly ascending order, exactly the slots
/// at or after `from` that are occupied in both columns, and nothing else.
pub proof fn lemma_joint_slots<A, B>(a: Seq<Option<A>>, b: Seq<Option<B>>, from: int)
    requires
        0 <= from,
    ensures
        forall|i: int|
            joint_slots(a, b, from).contains(i) <==> from <= i < a.len() && i < b.len()
                && a[i] is Some && b[i] is Some,
        forall|m: int, n: int|
            0 <= m < n < joint_slots(a, b, from).len() ==> joint_slots(a, b, from)[m]
                < joint_slots(a, b, from)[n],
    decreases a.len() - from,
{
    let slots = joint_slots(a, b, from);
    if from < a.len() && from < b.len() {
        lemma_joint_slots(a, b, from + 1);
        let rest = joint_slots(a, b, from + 1);
        if a[from] is Some && b[from] is Some {
            assert forall|i: int|
                slots.contains(i) <==> from <= i < a.len() && i < b.len() && a[i] is Some
                    && b[i] is Some by {
                if slots.contains(i) {
                    let at = choose|at: int| 0 <= at < slots.len() && slots[at] == i;
                    if at > 0 {
                        assert(rest[at - 1] == i);
                        assert(rest.contains(i));
                    }
                }
                if from <= i < a.len() && i < b.len() && a[i] is Some && b[i] is Some {
                    if i == from {
                        assert(slots[0] == i);
                    } else {
                        assert(rest.contains(i));
                        let at = choose|at: int| 0 <= at < rest.len() && rest[at] == i;
                        assert(slots[at + 1] == i);
                    }
                }
            }
            assert forall|m: int, n: int| 0 <= m < n < slots.len() implies slots[m] < slots[n] by {
                assert(slots[n] == rest[n - 1]);
                assert(rest.contains(rest[n - 1]));
                if m > 0 {
                    assert(slots[m] == rest[m - 1]);
                }
            }
        }
    }
}

/// The joint slots of two columns are the slots that the two columns have in
/// common when each is read as a map from slot to component.
pub proof fn lemma_joint_slots_intersect<A, B>(a: Seq<Option<A>>, b: Seq<Option<B>>)
    ensures
        joint_slots(a, b, 0).to_set() == by_slot(a).dom().intersect(by_slot(b).dom()),
{
    lemma_joint_slots(a, b, 0);
    assert(joint_slots(a, b, 0).to_set() =~= by_slot(a).dom().intersect(by_slot(b).dom()));
}

/// Walks two shared columns in lock-step and yields a pair of references for each
/// slot that is occupied in both.
pub struct PairComponentsRefIter<'world, C1, C2> {
    slice1: &'world [Option<C1>],
    slice2: &'world [Option<C2>],
    next_slot: usize,
}

impl<'world, C1, C2> PairComponentsRefIter<'world, C1, C2> {
    /// The whole first column, holes included.
    pub closed spec fn slots1(&self) -> Seq<Option<C1>> {
        self.slice1@
    }

    /// The whole second column, holes included.
    pub closed spec fn slots2(&self) -> Seq<Option<C2>> {
        self.slice2@
    }

    /// Slot index of the first slot not yet visited.
    pub closed spec fn position(&self) -> int {
        self.next_slot as int
    }

    /// The iterator never runs past the end of either column.
    pub closed spec fn wf(&self) -> bool {
        &&& self.next_slot <= self.slice1@.len()
        &&& self.next_slot <= self.slice2@.len()
    }

    /// An iterator at the start of both columns.
    pub fn new(slice1: &'world [Option<C1>], slice2: &'world [Option<C2>]) -> (iter: Self)
        ensures
            iter.wf(),
            iter.slots1() == slice1@,
            iter.slots2() == slice2@,
            iter.position() == 0,
    {
        PairComponentsRefIter { slice1, slice2, next_slot: 0 }
    }

    /// The next pair: the components in the first slot at or after `position` that
    /// is occupied in both columns. `None` once the shorter column has no such slot
    /// left.
    pub fn next(&mut self) -> (item: Option<(&'world C1, &'world C2)>)
        requires
            old(self).wf(),
        ensures
            final(self).wf(),
            final(self).slots1() == old(self).slots1(),
            final(self).slots2() == old(self).slots2(),
            ({
                let a = old(self).slots1();
                let b = old(self).slots2();
                let k = first_joint(a, b, old(self).position());
                match item {
                    Some((c1, c2)) => {
                        &&& old(self).position() <= k < a.len()
                        &&& k < b.len()
                        &&& a[k] == Some(*c1)
                        &&& b[k] == Some(*c2)
                        &&& final(self).position() == k + 1
                        &&& joint_slots(a, b, old(self).position()) == seq![k] + joint_slots(
                            a,
                            b,
                            final(self).position(),
                        )
                    },
                    None => {
                        &&& k == a.len() || k == b.len()
                        &&& k <= a.len()
                        &&& k <= b.len()
                        &&& final(self).position() == k
                        &&& joint_slots(a, b, old(self).position()) == Seq::<int>::empty()
                    },
                }
            }),
    {
        let ghost start = self.next_slot as int;
        proof {
            lemma_joint_slots_step(self.slice1@, self.slice2@, start);
        }
        while self.next_slot < self.slice1.len() && self.next_slot < self.slice2.len()
            invariant
                self.slice1 == old(self).slice1,
                self.slice2 == old(self).slice2,
                start == old(self).next_slot,
                start <= self.next_slot <= self.slice1@.len(),
                self.next_slot <= self.slice2@.len(),
                forall|i: int|
                    start <= i < self.next_slot ==> self.slice1@[i] is None
                        || self.slice2@[i] is None,
            decreases self.slice1@.len() - self.next_slot,
        {
            let index = self.next_slot;
            self.next_slot = self.next_slot + 1;
            let next1 = self.slice1[index].as_ref();
            let next2 = self.slice2[index].as_ref();
            match (next1, next2) {
                (Some(c1), Some(c2)) => {
                    proof {
                        lemma_first_joint_skips(self.slice1@, self.slice2@, start, index as int);
                        lemma_joint_slots_step(self.slice1@, self.slice2@, start);
                    }
                    return Some((c1, c2));
                },
                _ => {},
            }
        }
        proof {
            lemma_first_joint_skips(self.slice1@, self.slice2@, start, self.next_slot as int);
        }
        None
    }
}

/// Walks two exclusively borrowed columns in lock-step and yields a pair of mutable
/// references for each slot that is occupied in both.
pub struct PairComponentsRefIterMut<'world, C1, C2> {
    rest1: Option<&'world mut [Option<C1>]>,
    rest2: Option<&'world mut [Option<C2>]>,
    visited: Ghost<int>,
}

impl<'world, C1, C2> PairComponentsRefIterMut<'world, C1, C2> {
    /// Nothing is left to visit, and the borrows of both columns have ended.
    pub closed spec fn exhausted(&self) -> bool {
        self.rest1 is None || self.rest2 is None
    }

    /// The borrow of what is left of the first column (meaningful until `exhausted`).
    pub closed spec fn borrowed1(&self) -> &'world mut [Option<C1>] {
        self.rest1->0
    }

    /// The borrow of what is left of the second column (meaningful until
    /// `exhausted`).
    pub closed spec fn borrowed2(&self) -> &'world mut [Option<C2>] {
        self.rest2->0
    }

    /// The slots of the first column not yet visited, holes included.
    pub closed spec fn remaining1(&self) -> Seq<Option<C1>> {
        if self.exhausted() {
            Seq::empty()
        } else {
            self.rest1->0@
        }
    }

    /// The slots of the second column not yet visited, holes included.
    pub closed spec fn remaining2(&self) -> Seq<Option<C2>> {
        if self.exhausted() {
            Seq::empty()
        } else {
            self.rest2->0@
        }
    }

    /// Slot index of the first slot not yet visited.
    pub closed spec fn position(&self) -> int {
        self.visited@
    }

    /// An iterator at the start of both columns.
    pub fn new(slice1: &'world mut [Option<C1>], slice2: &'world mut [Option<C2>]) -> (iter:
        Self)
        ensures
            !iter.exhausted(),
            iter.remaining1() == old(slice1)@,
            iter.remaining2() == old(slice2)@,
            iter.position() == 0,
            final(iter.borrowed1())@ == final(slice1)@,
            final(iter.borrowed2())@ == final(slice2)@,
    {
        PairComponentsRefIterMut { rest1: Some(slice1), rest2: Some(slice2), visited: Ghost(0) }
    }

    /// The next pair: the components in the first slot left that is occupied in both
    /// columns. What the caller writes through either reference lands in that slot of
    /// its column; every slot passed over keeps what it held.
    pub fn next(&mut self) -> (item: Option<(&'world mut C1, &'world mut C2)>)
        ensures
            ({
                let a = old(self).remaining1();
                let b = old(self).remaining2();
                let k = first_joint(a, b, 0);
                match item {
                    Some((c1, c2)) => {
                        &&& 0 <= k < a.len()
                        &&& k < b.len()
                        &&& a[k] == Some(*c1)
                        &&& b[k] == Some(*c2)
                        &&& !old(self).exhausted()
                        &&& !final(self).exhausted()
                        &&& final(self).remaining1() == a.skip(k + 1)
                        &&& final(self).remaining2() == b.skip(k + 1)
                        &&& final(self).position() == old(self).position() + k + 1
                        &&& final(old(self).borrowed1())@ == a.subrange(0, k).push(
                            Some(*final(c1)),
                        ) + final(final(self).borrowed1())@
                        &&& final(old(self).borrowed2())@ == b.subrange(0, k).push(
                            Some(*final(c2)),
                        ) + final(final(self).borrowed2())@
                    },
                    None => {
                        &&& k == a.len() || k == b.len()
                        &&& k <= a.len()
                        &&& k <= b.len()
                        &&& final(self).exhausted()
                        &&& final(self).position() == old(self).position() + k
                        &&& !old(self).exhausted() ==> {
                            &&& final(old(self).borrowed1())@ == a
                            &&& final(old(self).borrowed2())@ == b
                        }
                    },
                }
            }),
    {
        if self.rest1.is_none() || self.rest2.is_none() {
            self.rest1 = None;
            self.rest2 = None;
            return None;
        }
        let ghost a = self.remaining1();
        let ghost b = self.remaining2();
        let ghost mut passed: int = 0;
        loop
            invariant
                !old(self).exhausted(),
                a == old(self).remaining1(),
                b == old(self).remaining2(),
                self.rest1 is Some,
                self.rest2 is Some,
                0 <= passed <= a.len(),
                passed <= b.len(),
                forall|i: int| 0 <= i < passed ==> a[i] is None || b[i] is None,
                self.rest1->0@ == a.skip(passed),
                self.rest2->0@ == b.skip(passed),
                self.visited@ == old(self).visited@ + passed,
                final(old(self).borrowed1())@ == a.subrange(0, passed) + final(self.rest1->0)@,
                final(old(self).borrowed2())@ == b.subrange(0, passed) + final(self.rest2->0)@,
            decreases a.len() - passed,
        {
            let next1 = match take_first_slot(&mut self.rest1) {
                Some(slot) => slot,
                None => {
                    self.rest2 = None;
                    proof {
                        lemma_first_joint_skips(a, b, 0, passed);
                        assert(a.subrange(0, passed) =~= a);
                        assert(b.subrange(0, passed) + b.skip(passed) =~= b);
                    }
                    return None;
                },
            };
            let next2 = match take_first_slot(&mut self.rest2) {
                Some(slot) => slot,
                None => {
                    self.rest1 = None;
                    proof {
                        lemma_first_joint_skips(a, b, 0, passed);
                        let tail = a.skip(passed + 1);
                        assert(b.subrange(0, passed) =~= b);
                        assert(a.skip(passed).skip(1) =~= tail);
                        assert(a.subrange(0, passed) + (seq![a[passed]] + tail) =~= a);
                    }
                    return None;
                },
            };
            proof {
                assert(a.skip(passed).skip(1) =~= a.skip(passed + 1));
                assert(b.skip(passed).skip(1) =~= b.skip(passed + 1));
            }
            self.visited = Ghost(self.visited@ + 1);
            match (next1.as_mut(), next2.as_mut()) {
                (Some(c1), Some(c2)) => {
                    proof {
                        lemma_first_joint_skips(a, b, 0, passed);
                        let head1 = a.subrange(0, passed);
                        let head2 = b.subrange(0, passed);
                        let tail1 = final(self.rest1->0)@;
                        let tail2 = final(self.rest2->0)@;
                        let written1 = Some(*final(c1));
                        let written2 = Some(*final(c2));
                        assert(head1 + (seq![written1] + tail1) =~= head1.push(written1) + tail1);
                        assert(head2 + (seq![written2] + tail2) =~= head2.push(written2) + tail2);
                    }
                    return Some((c1, c2));
                },
                _ => {
                    proof {
                        let tail1 = final(self.rest1->0)@;
                        let tail2 = final(self.rest2->0)@;
                        assert(a.subrange(0, passed) + (seq![a[passed]] + tail1) =~= a.subrange(
                            0,
                            passed + 1,
                        ) + tail1);
                        assert(b.subrange(0, passed) + (seq![b[passed]] + tail2) =~= b.subrange(
                            0,
                            passed + 1,
                        ) + tail2);
                        passed = passed + 1;
                    }
                },
            }
        }
    }
}

} // verus!

verus! {

/// Walks a shared column and yields a reference to each component in it.
pub struct SingleComponentRefIter<'world, C> {
    pub iter: Iter<'world, C>,
}

impl<'world, C> SingleComponentRefIter<'world, C> {
    /// The next component: the one in the first occupied slot at or after the
    /// position of `iter`. `None` once no occupied slot is left.
    pub fn next(&mut self) -> (item: Option<&'world C>)
        requires
            old(self).iter.wf(),
        ensures
            final(self).iter.wf(),
            final(self).iter.slots() == old(self).iter.slots(),
            ({
                let s = old(self).iter.slots();
                let k = first_occupied(s, old(self).iter.position());
                match item {
                    Some(component) => {
                        &&& old(self).iter.position() <= k < s.len()
                        &&& s[k] == Some(*component)
                        &&& final(self).iter.position() == k + 1
                        &&& occupied_slots(s, old(self).iter.position()) == seq![k]
                            + occupied_slots(s, final(self).iter.position())
                    },
                    None => {
                        &&& k == s.len()
                        &&& final(self).iter.position() == s.len()
                        &&& occupied_slots(s, old(self).iter.position()) == Seq::<int>::empty()
                    },
                }
            }),
    {
        self.iter.next()
    }
}

/// Walks an exclusively borrowed column and yields a mutable reference to each
/// component in it.
pub struct SingleComponentRefIterMut<'world, C> {
    pub iter: IterMut<'world, C>,
}

impl<'world, C> SingleComponentRefIterMut<'world, C> {
    /// The next component: the one in the first occupied slot that is left. What the
    /// caller writes through it lands in that slot; the holes passed over stay holes.
    pub fn next(&mut self) -> (item: Option<&'world mut C>)
        ensures
            ({
                let s = old(self).iter.remaining();
                let k = first_occupied(s, 0);
                match item {
                    Some(component) => {
                        &&& 0 <= k < s.len()
                        &&& s[k] == Some(*component)
                        &&& !old(self).iter.exhausted()
                        &&& !final(self).iter.exhausted()
                        &&& final(self).iter.remaining() == s.skip(k + 1)
                        &&& final(self).iter.position() == old(self).iter.position() + k + 1
                        &&& final(old(self).iter.borrowed())@ == s.subrange(0, k).push(
                            Some(*final(component)),
                        ) + final(final(self).iter.borrowed())@
                    },
                    None => {
                        &&& k == s.len()
                        &&& final(self).iter.exhausted()
                        &&& final(self).iter.position() == old(self).iter.position() + s.len()
                        &&& !old(self).iter.exhausted() ==> final(old(self).iter.borrowed())@ == s
                    },
                }
            }),
    {
        self.iter.next()
    }
}

} // verus!

verus! {

/// Walks a column to which the caller has exclusive access and yields a reference
/// to each component in it.
pub struct SingleComponentExclusiveIter<'world, C> {
    pub iter: Iter<'world, C>,
}

impl<'world, C> SingleComponentExclusiveIter<'world, C> {
    /// The next component: the one in the first occupied slot at or after the
    /// position of `iter`. `None` once no occupied slot is left.
    pub fn next(&mut self) -> (item: Option<&'world C>)
        requires
            old(self).iter.wf(),
        ensures
            final(self).iter.wf(),
            final(self).iter.slots() == old(self).iter.slots(),
            ({
                let s = old(self).iter.slots();
                let k = first_occupied(s, old(self).iter.position());
                match item {
                    Some(component) => {
                        &&& old(self).iter.position() <= k < s.len()
                        &&& s[k] == Some(*component)
                        &&& final(self).iter.position() == k + 1
                        &&& occupied_slots(s, old(self).iter.position()) == seq![k]
                            + occupied_slots(s, final(self).iter.position())
                    },
                    None => {
                        &&& k == s.len()
                        &&& final(self).iter.position() == s.len()
                        &&& occupied_slots(s, old(self).iter.position()) == Seq::<int>::empty()
                    },
                }
            }),
    {
        self.iter.next()
    }
}

/// Walks a column to which the caller has exclusive access and yields a mutable
/// reference to each component in it.
pub struct SingleComponentExclusiveIterMut<'world, C> {
    pub iter: IterMut<'world, C>,
}

impl<'world, C> SingleComponentExclusiveIterMut<'world, C> {
    /// The next component: the one in the first occupied slot that is left. What the
    /// caller writes through it lands in that slot; the holes passed over stay holes.
    pub fn next(&mut self) -> (item: Option<&'world mut C>)
        ensures
            ({
                let s = old(self).iter.remaining();
                let k = first_occupied(s, 0);
                match item {
                    Some(component) => {
                        &&& 0 <= k < s.len()
                        &&& s[k] == Some(*component)
                        &&& !old(self).iter.exhausted()
                        &&& !final(self).iter.exhausted()
                        &&& final(self).iter.remaining() == s.skip(k + 1)
                        &&& final(self).iter.position() == old(self).iter.position() + k + 1
                        &&& final(old(self).iter.borrowed())@ == s.subrange(0, k).push(
                            Some(*final(component)),
                        ) + final(final(self).iter.borrowed())@
                    },
                    None => {
                        &&& k == s.len()
                        &&& final(self).iter.exhausted()
                        &&& final(self).iter.position() == old(self).iter.position() + s.len()
                        &&& !old(self).iter.exhausted() ==> final(old(self).iter.borrowed())@ == s
                    },
                }
            }),
    {
        self.iter.next()
    }
}

/// An iterator that can be made from a world: it knows which columns it walks and
/// borrows them, shared or exclusive, through the borrow lock.
pub trait FromWorld<'world, E: ErasedColumn>: Sized {
    /// The world grants what this iterator asks for: the component types it walks
    /// are registered, and its borrows do not rule each other out.
    spec fn admitted_by(world: &World<E>) -> bool;

    /// Why the world refuses this iterator, where it does.
    spec fn refusal(world: &World<E>) -> BorrowError;

    /// The places, in the table of columns, of the columns that this iterator
    /// borrows for writing.
    spec fn writes(world: &World<E>) -> Set<int>;

    /// This iterator stands at the start of its columns as `world` holds them.
    spec fn starts_on(&self, world: &World<E>) -> bool;

    /// Borrows the columns and makes the iterator, or says why the world refuses.
    /// Whatever is written through the iterator, the world keeps its entities, its
    /// component types, and every column that the iterator does not write.
    fn try_from_world(world: &'world mut World<E>) -> (iter: Result<Self, BorrowError>)
        requires
            old(world).wf(),
        ensures
            final(world).wf(),
            final(world).entities == old(world).entities,
            final(world).components.same_outside(&old(world).components, Self::writes(old(world))),
            iter is Ok == Self::admitted_by(old(world)),
            iter matches Ok(made) ==> made.starts_on(old(world)),
            iter matches Err(error) ==> error == Self::refusal(old(world)),
    ;

    /// Borrows the columns and makes the iterator, from a world that grants it.
    fn from_world(world: &'world mut World<E>) -> (iter: Self)
        requires
            old(world).wf(),
            Self::admitted_by(old(world)),
        ensures
            final(world).wf(),
            final(world).entities == old(world).entities,
            final(world).components.same_outside(&old(world).components, Self::writes(old(world))),
            iter.starts_on(old(world)),
    ;
}

impl<'world, E, C> FromWorld<'world, E> for SingleComponentRefIter<'world, C> where
    E: ErasedColumn,
    C: Component<Erased = E>,
 {
    open spec fn admitted_by(world: &World<E>) -> bool {
        world.is_registered::<C>()
    }

    open spec fn refusal(world: &World<E>) -> BorrowError {
        BorrowError::NotRegistered
    }

    open spec fn writes(world: &World<E>) -> Set<int> {
        Set::empty()
    }

    open spec fn starts_on(&self, world: &World<E>) -> bool {
        &&& self.iter.wf()
        &&& self.iter.slots() == world.column::<C>()
        &&& self.iter.position() == 0
    }

    fn try_from_world(world: &'world mut World<E>) -> (iter: Result<Self, BorrowError>)
        ensures
            final(world).components.columns() == old(world).components.columns(),
    {
        let shared: &'world World<E> = world;
        match shared.components.borrow_slice::<C>() {
            Some(slots) => Ok(SingleComponentRefIter { iter: Iter::new(slots) }),
            None => Err(BorrowError::NotRegistered),
        }
    }

    fn from_world(world: &'world mut World<E>) -> (iter: Self)
        ensures
            final(world).components.columns() == old(world).components.columns(),
    {
        match Self::try_from_world(world) {
            Ok(iter) => iter,
            Err(_) => vstd::pervasive::unreached(),
        }
    }
}

impl<'world, E, C> FromWorld<'world, E> for SingleComponentRefIterMut<'world, C> where
    E: ErasedColumn,
    C: Component<Erased = E>,
 {
    open spec fn admitted_by(world: &World<E>) -> bool {
        world.is_registered::<C>()
    }

    open spec fn refusal(world: &World<E>) -> BorrowError {
        BorrowError::NotRegistered
    }

    open spec fn writes(world: &World<E>) -> Set<int> {
        set![world.slot_of::<C>()]
    }

    open spec fn starts_on(&self, world: &World<E>) -> bool {
        &&& !self.iter.exhausted()
        &&& self.iter.remaining() == world.column::<C>()
        &&& self.iter.position() == 0
    }

    fn try_from_world(world: &'world mut World<E>) -> (iter: Result<Self, BorrowError>)
        ensures
            iter matches Ok(made) ==> final(world).column::<C>() == final(made.iter.borrowed())@,
    {
        match world.components.borrow_mut_slice::<C>() {
            Some(slots) => Ok(SingleComponentRefIterMut { iter: IterMut::new(slots) }),
            None => Err(BorrowError::NotRegistered),
        }
    }

    fn from_world(world: &'world mut World<E>) -> (iter: Self)
        ensures
            final(world).column::<C>() == final(iter.iter.borrowed())@,
    {
        match Self::try_from_world(world) {
            Ok(iter) => iter,
            Err(_) => vstd::pervasive::unreached(),
        }
    }
}

} // verus!

verus! {

impl<'world, E, C> FromWorld<'world, E> for SingleComponentExclusiveIter<'world, C> where
    E: ErasedColumn,
    C: Component<Erased = E>,
 {
    open spec fn admitted_by(world: &World<E>) -> bool {
        world.is_registered::<C>()
    }

    open spec fn refusal(world: &World<E>) -> BorrowError {
        BorrowError::NotRegistered
    }

    open spec fn writes(world: &World<E>) -> Set<int> {
        Set::empty()
    }

    open spec fn starts_on(&self, world: &World<E>) -> bool {
        &&& self.iter.wf()
        &&& self.iter.slots() == world.column::<C>()
        &&& self.iter.position() == 0
    }

    fn try_from_world(world: &'world mut World<E>) -> (iter: Result<Self, BorrowError>)
        ensures
            final(world).components.columns() == old(world).components.columns(),
    {
        let shared: &'world World<E> = world;
        match shared.components.borrow_slice::<C>() {
            Some(slots) => Ok(SingleComponentExclusiveIter { iter: Iter::new(slots) }),
            None => Err(BorrowError::NotRegistered),
        }
    }

    fn from_world(world: &'world mut World<E>) -> (iter: Self)
        ensures
            final(world).components.columns() == old(world).components.columns(),
    {
        match Self::try_from_world(world) {
            Ok(iter) => iter,
            Err(_) => vstd::pervasive::unreached(),
        }
    }
}

impl<'world, E, C> FromWorld<'world, E> for SingleComponentExclusiveIterMut<'world, C> where
    E: ErasedColumn,
    C: Component<Erased = E>,
 {
    open spec fn admitted_by(world: &World<E>) -> bool {
        world.is_registered::<C>()
    }

    open spec fn refusal(world: &World<E>) -> BorrowError {
        BorrowError::NotRegistered
    }

    open spec fn writes(world: &World<E>) -> Set<int> {
        set![world.slot_of::<C>()]
    }

    open spec fn starts_on(&self, world: &World<E>) -> bool {
        &&& !self.iter.exhausted()
        &&& self.iter.remaining() == world.column::<C>()
        &&& self.iter.position() == 0
    }

    fn try_from_world(world: &'world mut World<E>) -> (iter: Result<Self, BorrowError>)
        ensures
            iter matches Ok(made) ==> final(world).column::<C>() == final(made.iter.borrowed())@,
    {
        match world.components.borrow_mut_slice::<C>() {
            Some(slots) => Ok(SingleComponentExclusiveIterMut { iter: IterMut::new(slots) }),
            None => Err(BorrowError::NotRegistered),
        }
    }

    fn from_world(world: &'world mut World<E>) -> (iter: Self)
        ensures
            final(world).column::<C>() == final(iter.iter.borrowed())@,
    {
        match Self::try_from_world(world) {
            Ok(iter) => iter,
            Err(_) => vstd::pervasive::unreached(),
        }
    }
}

impl<'world, E, C1, C2> FromWorld<'world, E> for PairComponentsRefIter<'world, C1, C2> where
    E: ErasedColumn,
    C1: Component<Erased = E>,
    C2: Component<Erased = E>,
 {
    open spec fn admitted_by(world: &World<E>) -> bool {
        world.is_registered::<C1>() && world.is_registered::<C2>()
    }

    open spec fn refusal(world: &World<E>) -> BorrowError {
        BorrowError::NotRegistered
    }

    open spec fn writes(world: &World<E>) -> Set<int> {
        Set::empty()
    }

    open spec fn starts_on(&self, world: &World<E>) -> bool {
        &&& self.wf()
        &&& self.slots1() == world.column::<C1>()
        &&& self.slots2() == world.column::<C2>()
        &&& self.position() == 0
    }

    fn try_from_world(world: &'world mut World<E>) -> (iter: Result<Self, BorrowError>)
        ensures
            final(world).components.columns() == old(world).components.columns(),
    {
        let shared: &'world World<E> = world;
        match shared.components.borrow_slices::<C1, C2>() {
            Ok((slots1, slots2)) => Ok(PairComponentsRefIter::new(slots1, slots2)),
            Err(error) => Err(error),
        }
    }

    fn from_world(world: &'world mut World<E>) -> (iter: Self)
        ensures
            final(world).components.columns() == old(world).components.columns(),
    {
        match Self::try_from_world(world) {
            Ok(iter) => iter,
            Err(_) => vstd::pervasive::unreached(),
        }
    }
}

impl<'world, E, C1, C2> FromWorld<'world, E> for PairComponentsRefIterMut<'world, C1, C2> where
    E: ErasedColumn,
    C1: Component<Erased = E>,
    C2: Component<Erased = E>,
 {
    open spec fn admitted_by(world: &World<E>) -> bool {
        &&& world.is_registered::<C1>()
        &&& world.is_registered::<C2>()
        &&& C1::spec_type_key() != C2::spec_type_key()
    }

    open spec fn refusal(world: &World<E>) -> BorrowError {
        if world.is_registered::<C1>() && world.is_registered::<C2>() {
            BorrowError::AlreadyBorrowed
        } else {
            BorrowError::NotRegistered
        }
    }

    open spec fn writes(world: &World<E>) -> Set<int> {
        set![world.slot_of::<C1>(), world.slot_of::<C2>()]
    }

    open spec fn starts_on(&self, world: &World<E>) -> bool {
        &&& !self.exhausted()
        &&& self.remaining1() == world.column::<C1>()
        &&& self.remaining2() == world.column::<C2>()
        &&& self.position() == 0
    }

    fn try_from_world(world: &'world mut World<E>) -> (iter: Result<Self, BorrowError>)
        ensures
            iter matches Ok(made) ==> {
                &&& final(world).column::<C1>() == final(made.borrowed1())@
                &&& final(world).column::<C2>() == final(made.borrowed2())@
            },
    {
        match world.components.borrow_mut_slices::<C1, C2>() {
            Ok((slots1, slots2)) => Ok(PairComponentsRefIterMut::new(slots1, slots2)),
            Err(error) => Err(error),
        }
    }

    fn from_world(world: &'world mut World<E>) -> (iter: Self)
        ensures
            final(world).column::<C1>() == final(iter.borrowed1())@,
            final(world).column::<C2>() == final(iter.borrowed2())@,
    {
        match Self::try_from_world(world) {
            Ok(iter) => iter,
            Err(_) => vstd::pervasive::unreached(),
        }
    }
}

} // verus!
