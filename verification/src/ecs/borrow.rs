//! The borrow lock: who may read or write a column while others hold it.
//!
//! Every column has a lock, which is free, held by a number of readers, or held by
//! one writer. A request that the lock cannot grant is refused at once; nothing
//! waits.

use vstd::prelude::*;

verus! {

/// Why a borrow of a column was refused.
#[derive(Debug, Clone, Copy, PartialEq, Eq, Structural)]
pub enum BorrowError {
    /// The component type has no column in this world.
    NotRegistered,
    /// The column is already borrowed in a way that rules the request out.
    AlreadyBorrowed,
}

/// The state of the lock of one column.
#[derive(Debug, Clone, Copy, PartialEq, Eq, Structural)]
pub enum BorrowState {
    /// Nobody holds the column.
    Free,
    /// The column is held by this many readers (at least one).
    Shared(usize),
    /// The column is held by one writer.
    Exclusive,
}

impl BorrowState {
    /// A count of readers is never zero: a lock without readers is free.
    pub open spec fn wf(self) -> bool {
        self matches BorrowState::Shared(readers) ==> readers > 0
    }

    /// One more reader may enter: no writer holds the lock, and the count of readers
    /// has room.
    pub open spec fn admits_shared(self) -> bool {
        match self {
            BorrowState::Free => true,
            BorrowState::Shared(readers) => readers < usize::MAX,
            BorrowState::Exclusive => false,
        }
    }

    /// A writer may enter: nobody holds the lock.
    pub open spec fn admits_exclusive(self) -> bool {
        self is Free
    }

    /// The lock after one more reader has entered.
    pub open spec fn with_reader(self) -> BorrowState {
        match self {
            BorrowState::Free => BorrowState::Shared(1),
            BorrowState::Shared(readers) => BorrowState::Shared((readers + 1) as usize),
            BorrowState::Exclusive => BorrowState::Exclusive,
        }
    }

    /// The lock after a writer has entered a free lock.
    pub open spec fn with_writer(self) -> BorrowState {
        match self {
            BorrowState::Free => BorrowState::Exclusive,
            _ => self,
        }
    }

    /// The lock after its writer has left.
    pub open spec fn without_writer(self) -> BorrowState {
        match self {
            BorrowState::Exclusive => BorrowState::Free,
            _ => self,
        }
    }

    /// The lock after one reader has left.
    pub open spec fn without_reader(self) -> BorrowState {
        match self {
            BorrowState::Shared(readers) => if readers <= 1 {
                BorrowState::Free
            } else {
                BorrowState::Shared((readers - 1) as usize)
            },
            _ => self,
        }
    }

    /// Asks for a shared borrow. It is granted unless a writer holds the lock (or
    /// the count of readers is at its limit); a refusal changes nothing.
    pub fn borrow_shared(&mut self) -> (granted: bool)
        requires
            old(self).wf(),
        ensures
            final(self).wf(),
            granted == old(self).admits_shared(),
            granted ==> *final(self) == old(self).with_reader(),
            !granted ==> *final(self) == *old(self),
    {
        match *self {
            BorrowState::Free => {
                *self = BorrowState::Shared(1);
                true
            },
            BorrowState::Shared(readers) => {
                if readers < usize::MAX {
                    *self = BorrowState::Shared(readers + 1);
                    true
                } else {
                    false
                }
            },
            BorrowState::Exclusive => false,
        }
    }

    /// Asks for an exclusive borrow. It is granted only if nobody holds the lock; a
    /// refusal changes nothing.
    pub fn borrow_exclusive(&mut self) -> (granted: bool)
        ensures
            granted == old(self).admits_exclusive(),
            granted ==> *final(self) == old(self).with_writer(),
            !granted ==> *final(self) == *old(self),
    {
        match *self {
            BorrowState::Free => {
                *self = BorrowState::Exclusive;
                true
            },
            _ => false,
        }
    }

    /// Gives a shared borrow back. On a lock that no reader holds, nothing changes.
    pub fn release_shared(&mut self)
        requires
            old(self).wf(),
        ensures
            final(self).wf(),
            *final(self) == old(self).without_reader(),
    {
        match *self {
            BorrowState::Shared(readers) => {
                if readers <= 1 {
                    *self = BorrowState::Free;
                } else {
                    *self = BorrowState::Shared(readers - 1);
                }
            },
            _ => {},
        }
    }

    /// Gives an exclusive borrow back. On a lock that no writer holds, nothing
    /// changes.
    pub fn release_exclusive(&mut self)
        ensures
            *final(self) == old(self).without_writer(),
    {
        match *self {
            BorrowState::Exclusive => {
                *self = BorrowState::Free;
            },
            _ => {},
        }
    }
}

/// While a writer holds a lock, every further request is refused; when the writer
/// has left, the lock is free again.
pub proof fn lemma_writer_excludes_all(lock: BorrowState)
    requires
        lock.admits_exclusive(),
    ensures
        !lock.with_writer().admits_exclusive(),
        !lock.with_writer().admits_shared(),
        lock.with_writer().without_writer() == lock,
{
}

/// While a reader holds a lock, a writer is refused; when the last reader has left,
/// a writer is admitted again.
pub proof fn lemma_reader_excludes_writer(lock: BorrowState)
    requires
        lock.wf(),
        lock.admits_shared(),
    ensures
        lock.with_reader().wf(),
        !lock.with_reader().admits_exclusive(),
        lock.with_reader().without_reader() == lock,
{
}

/// The locks of all the columns of a world, by slot in its table of columns.
pub struct BorrowLocks {
    locks: Vec<BorrowState>,
}

impl View for BorrowLocks {
    type V = Seq<BorrowState>;

    closed spec fn view(&self) -> Seq<BorrowState> {
        self.locks@
    }
}

impl BorrowLocks {
    /// Every lock is in a proper state.
    pub open spec fn wf(&self) -> bool {
        forall|slot: int| 0 <= slot < self@.len() ==> (#[trigger] self@[slot]).wf()
    }

    /// `count` locks, all free.
    pub fn new(count: usize) -> (locks: Self)
        ensures
            locks.wf(),
            locks@ == Seq::new(count as nat, |slot: int| BorrowState::Free),
    {
        let mut locks: Vec<BorrowState> = Vec::new();
        while locks.len() < count
            invariant
                locks@.len() <= count,
                locks@ == Seq::new(locks@.len(), |slot: int| BorrowState::Free),
            decreases count - locks@.len(),
        {
            locks.push(BorrowState::Free);
            proof {
                assert(locks@ =~= Seq::new(locks@.len(), |slot: int| BorrowState::Free));
            }
        }
        BorrowLocks { locks }
    }

    /// Asks for a shared borrow of the column at `slot`. Only that lock changes, and
    /// only if the borrow is granted.
    pub fn borrow_shared(&mut self, slot: usize) -> (granted: bool)
        requires
            old(self).wf(),
            slot < old(self)@.len(),
        ensures
            final(self).wf(),
            granted == old(self)@[slot as int].admits_shared(),
            final(self)@ == (if granted {
                old(self)@.update(slot as int, old(self)@[slot as int].with_reader())
            } else {
                old(self)@
            }),
    {
        let lock = &mut self.locks[slot];
        let granted = lock.borrow_shared();
        proof {
            assert(self.locks@ =~= (if granted {
                old(self)@.update(slot as int, old(self)@[slot as int].with_reader())
            } else {
                old(self)@
            }));
        }
        granted
    }

    /// Asks for an exclusive borrow of the column at `slot`. Only that lock changes,
    /// and only if the borrow is granted.
    pub fn borrow_exclusive(&mut self, slot: usize) -> (granted: bool)
        requires
            old(self).wf(),
            slot < old(self)@.len(),
        ensures
            final(self).wf(),
            granted == old(self)@[slot as int].admits_exclusive(),
            final(self)@ == (if granted {
                old(self)@.update(slot as int, old(self)@[slot as int].with_writer())
            } else {
                old(self)@
            }),
    {
        let lock = &mut self.locks[slot];
        let granted = lock.borrow_exclusive();
        proof {
            assert(self.locks@ =~= (if granted {
                old(self)@.update(slot as int, old(self)@[slot as int].with_writer())
            } else {
                old(self)@
            }));
        }
        granted
    }
}

/// After an exclusive borrow of one column has been granted, every further borrow
/// of that column, shared or exclusive, is refused, and the locks of the other
/// columns are as they were: an exclusive borrow of another column is granted as if
/// the first had not been made.
pub proof fn lemma_exclusive_borrows(locks: Seq<BorrowState>, first: int, second: int)
    requires
        0 <= first < locks.len(),
        0 <= second < locks.len(),
        locks[first].admits_exclusive(),
    ensures
        ({
            let held = locks.update(first, locks[first].with_writer());
            &&& second == first ==> !held[second].admits_exclusive()
            &&& second == first ==> !held[second].admits_shared()
            &&& second != first ==> held[second] == locks[second]
        }),
{
}

/// After a shared borrow of one column has been granted, an exclusive borrow of that
/// column is refused, and the locks of the other columns are as they were.
pub proof fn lemma_shared_borrows(locks: Seq<BorrowState>, first: int, second: int)
    requires
        0 <= first < locks.len(),
        0 <= second < locks.len(),
        locks[first].admits_shared(),
    ensures
        ({
            let held = locks.update(first, locks[first].with_reader());
            &&& second == first ==> !held[second].admits_exclusive()
            &&& second != first ==> held[second] == locks[second]
        }),
{
}

} // verus!
