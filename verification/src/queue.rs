//! The queue of values that wait for their destruction.
use core::cell::RefCell;
use vstd::prelude::*;

use crate::allocator::Allocator;
use crate::batch::Batch;
use crate::cleanup_list::{
    one_added, one_taken, several_taken, Garbage, Parcel, QueueStorageBox, ToDeallocate,
};
use crate::mutex::Mutex;
use crate::slot::{create, created};

verus! {

/// Holds the values that have been dropped and wait to be destroyed. Any number
/// of threads may use it.
#[verifier::reject_recursive_types(A)]
pub struct Queue<A> {
    head: Mutex<RefCell<ToDeallocate<A>>>,
}

/// Calls `RefCell::borrow_mut`, to have `add_item` applied to the list in the cell.
/// Which list that is depends on who used the cell before. The cell is borrowed
/// only here and in the two functions below, by one thread at a time, and nothing
/// that they apply comes back to it, so `borrow_mut` does not panic.
#[verifier::external_body]
fn borrow_and_add<T: Send + 'static, A>(
    cell: &RefCell<ToDeallocate<A>>,
    item: Parcel<T, A>,
) -> (done: ())
    ensures
        exists|list: &mut ToDeallocate<A>|
            call_ensures(ToDeallocate::<A>::add_item::<T>, (list, item), done),
    opens_invariants none
    no_unwind
{
    cell.borrow_mut().add_item(item)
}

/// Calls `RefCell::borrow_mut`, to have `extract_one` applied to the list in the
/// cell, and returns what it returned. The rest is as with `borrow_and_add`.
#[verifier::external_body]
fn borrow_and_extract_one<A>(cell: &RefCell<ToDeallocate<A>>) -> (taken: Option<Garbage<A>>)
    ensures
        exists|list: &mut ToDeallocate<A>|
            call_ensures(ToDeallocate::<A>::extract_one, (list,), taken),
{
    cell.borrow_mut().extract_one()
}

/// Calls `RefCell::borrow_mut`, to have `extract_several` applied to the list in the
/// cell, and returns what it returned. The rest is as with `borrow_and_add`.
#[verifier::external_body]
fn borrow_and_extract_several<A, const N: usize>(cell: &RefCell<ToDeallocate<A>>) -> (taken: Batch<
    Garbage<A>,
    N,
>)
    ensures
        exists|list: &mut ToDeallocate<A>|
            call_ensures(ToDeallocate::<A>::extract_several::<N>, (list,), taken),
{
    cell.borrow_mut().extract_several()
}

/// Puts a parcel on the list in `cell`.
fn add_in<T: Send + 'static, A>(cell: &RefCell<ToDeallocate<A>>, item: Parcel<T, A>) -> (done: ())
    ensures
        call_ensures(borrow_and_add::<T, A>, (cell, item), done),
    opens_invariants none
    no_unwind
{
    borrow_and_add(cell, item)
}

impl<A> Queue<A> {
    /// The cell that the list is kept in.
    pub closed spec fn cell(&self) -> RefCell<ToDeallocate<A>> {
        self.head@
    }

    /// `add_item` was applied to the list, with this parcel.
    pub closed spec fn accepted<T: Send + 'static>(&self, item: Parcel<T, A>) -> bool {
        call_ensures(borrow_and_add::<T, A>, (&self.cell(), item), ())
    }

    /// `extract_one` was applied to the list, and this came out.
    pub closed spec fn gave(&self, taken: Option<Garbage<A>>) -> bool {
        call_ensures(borrow_and_extract_one::<A>, (&self.cell(),), taken)
    }

    /// `extract_several` was applied to the list, and this came out.
    pub closed spec fn gave_several<const N: usize>(&self, taken: Batch<Garbage<A>, N>) -> bool {
        call_ensures(borrow_and_extract_several::<A, N>, (&self.cell(),), taken)
    }

    /// The parcel was put on the list, which was `found` before and `left` after.
    pub open spec fn added<T: Send + 'static>(
        &self,
        found: Seq<QueueStorageBox<A>>,
        left: Seq<QueueStorageBox<A>>,
        item: Parcel<T, A>,
    ) -> bool {
        self.accepted(item) && one_added(found, left, item.stored())
    }

    /// One value was taken off the list, which was `found` before and `left` after,
    /// unless it was empty.
    pub open spec fn took(
        &self,
        found: Seq<QueueStorageBox<A>>,
        left: Seq<QueueStorageBox<A>>,
        taken: Option<Garbage<A>>,
    ) -> bool {
        self.gave(taken) && one_taken(found, left, taken)
    }

    /// Up to `N` values were taken off the list, which was `found` before and `left`
    /// after.
    pub open spec fn took_several<const N: usize>(
        &self,
        found: Seq<QueueStorageBox<A>>,
        left: Seq<QueueStorageBox<A>>,
        taken: Batch<Garbage<A>, N>,
    ) -> bool {
        self.gave_several(taken) && several_taken(N as nat, found, left, taken@)
    }

    /// Calls `embassy_sync::blocking_mutex::Mutex::lock`, to have `add_in` applied
    /// once to the cell in the critical section. The lock unwinds only if what it
    /// applies does, and `add_in` does not.
    #[verifier::external_body]
    fn lock_and_add<T: Send + 'static>(&self, item: Parcel<T, A>) -> (done: ())
        ensures
            call_ensures(add_in::<T, A>, (&self.cell(), item), done),
        opens_invariants none
        no_unwind
    {
        self.head.inner.lock(|cell| add_in(cell, item))
    }

    /// Puts a parcel on the list.
    pub(crate) fn add<T: Send + 'static>(&self, item: Parcel<T, A>)
        ensures
            exists|found: Seq<QueueStorageBox<A>>, left: Seq<QueueStorageBox<A>>|
                self.added(found, left, item),
        opens_invariants none
        no_unwind
    {
        self.lock_and_add(item);
        proof {
            let list = choose|list: &mut ToDeallocate<A>|
                call_ensures(ToDeallocate::<A>::add_item::<T>, (list, item), ());
            assert(self.added((*list)@, (*final(list))@, item));
        }
    }

    /// Takes the first value off the list.
    fn take_one(&self) -> (taken: Option<Garbage<A>>)
        ensures
            exists|found: Seq<QueueStorageBox<A>>, left: Seq<QueueStorageBox<A>>|
                self.took(found, left, taken),
    {
        let taken = self.head.lock(borrow_and_extract_one);
        proof {
            let list = choose|list: &mut ToDeallocate<A>|
                call_ensures(ToDeallocate::<A>::extract_one, (list,), taken);
            assert(self.took((*list)@, (*final(list))@, taken));
        }
        taken
    }

    /// Takes the first `N` values off the list.
    fn take_several<const N: usize>(&self) -> (taken: Batch<Garbage<A>, N>)
        ensures
            exists|found: Seq<QueueStorageBox<A>>, left: Seq<QueueStorageBox<A>>|
                self.took_several(found, left, taken),
    {
        let taken = self.head.lock(borrow_and_extract_several::<A, N>);
        proof {
            let list = choose|list: &mut ToDeallocate<A>|
                call_ensures(ToDeallocate::<A>::extract_several::<N>, (list,), taken);
            assert(self.took_several((*list)@, (*final(list))@, taken));
        }
        taken
    }
}

/// Destroys what was taken off a list, if anything. Returns whether there was
/// anything.
pub fn destroy_one<A: Allocator>(taken: Option<Garbage<A>>) -> (any: bool)
    ensures
        any == (taken is Some),
        taken matches Some(garbage) ==> garbage.was_destroyed(),
{
    match taken {
        Some(garbage) => {
            garbage.destroy();
            true
        },
        None => false,
    }
}

/// The value was destroyed, after those before it in `taken`.
pub open spec fn destroyed_in_turn<A: Allocator>(taken: Seq<Garbage<A>>, i: int) -> bool {
    call_ensures(destroy_next::<A>, (taken[i], Ghost(taken.take(i))), ())
}

/// Destroys a value, after the `earlier` ones.
pub fn destroy_next<A: Allocator>(garbage: Garbage<A>, earlier: Ghost<Seq<Garbage<A>>>)
    requires
        forall|i: int| 0 <= i < earlier@.len() ==> (#[trigger] earlier@[i]).was_destroyed(),
    ensures
        garbage.was_destroyed(),
{
    garbage.destroy()
}

/// Destroys what was taken off a list, first to last. Returns how many values it
/// were.
pub fn destroy_several<A: Allocator, const N: usize>(taken: Batch<Garbage<A>, N>) -> (n: usize)
    ensures
        n == taken@.len(),
        forall|i: int| 0 <= i < n ==> (#[trigger] taken@[i]).was_destroyed(),
        forall|i: int| 0 <= i < n ==> #[trigger] destroyed_in_turn(taken@, i),
{
    let mut rest = taken;
    let n: usize = rest.len();
    while rest.len() > 0
        invariant
            n == taken@.len(),
            rest@.len() <= n,
            rest@ == taken@.skip(n - rest@.len()),
            forall|i: int| 0 <= i < n - rest@.len() ==> (#[trigger] taken@[i]).was_destroyed(),
            forall|i: int| 0 <= i < n - rest@.len() ==> #[trigger] destroyed_in_turn(taken@, i),
        decreases rest@.len(),
    {
        let ghost k = n - rest@.len();
        let garbage = rest.remove_first();
        assert(garbage == taken@[k]);
        destroy_next(garbage, Ghost(taken@.take(k)));
        assert(destroyed_in_turn(taken@, k));
    }
    n
}

impl<A: Allocator + 'static> Queue<A> {
    /// An empty queue.
    pub fn new() -> (queue: Self)
        ensures
            exists|first: ToDeallocate<A>| #[trigger]
                created(&queue.cell(), first) && first@ == Seq::<QueueStorageBox<A>>::empty(),
    {
        let first = ToDeallocate::new();
        let queue = Queue { head: Mutex::new(create(first)) };
        assert(created(&queue.cell(), first));
        queue
    }

    /// Destroys one value, if one is waiting. Returns whether there was one. The
    /// queue is not locked while the value is destroyed.
    pub fn garbage_collect_one(&self) -> (any: bool)
        ensures
            exists|
                found: Seq<QueueStorageBox<A>>,
                left: Seq<QueueStorageBox<A>>,
                taken: Option<Garbage<A>>,
            |
                {
                    &&& #[trigger] self.took(found, left, taken)
                    &&& any == (taken is Some)
                    &&& taken matches Some(garbage) ==> garbage.was_destroyed()
                },
    {
        let taken = self.take_one();
        destroy_one(taken)
    }

    /// Destroys up to `N` values. Returns how many it were. The queue is not locked
    /// while they are destroyed.
    pub fn garbage_collect_several<const N: usize>(&self) -> (n: usize)
        ensures
            exists|
                found: Seq<QueueStorageBox<A>>,
                left: Seq<QueueStorageBox<A>>,
                taken: Batch<Garbage<A>, N>,
            |
                {
                    &&& #[trigger] self.took_several(found, left, taken)
                    &&& n == taken@.len()
                    &&& forall|i: int| 0 <= i < n ==> (#[trigger] taken@[i]).was_destroyed()
                    &&& forall|i: int| 0 <= i < n ==> #[trigger] destroyed_in_turn(taken@, i)
                },
    {
        let taken = self.take_several::<N>();
        destroy_several(taken)
    }
}

} // verus!
