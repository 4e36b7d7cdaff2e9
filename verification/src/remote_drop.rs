//! Boxes, shared boxes and slices that leave their destruction to a queue.
use core::ops::Deref;
use core::ops::DerefMut;
use std::sync::Arc;
use vstd::prelude::*;

use crate::allocator::{AllocError, Global, Source};
use crate::borrows::{counted_up, granted, started_at, MaxBorrows};
pub use crate::cleanup_list::ToDeallocate;
use crate::cleanup_list::{ask, Link, Parcel, QueueStorageBox};
use crate::destruction::{destroy_value, destroyed};
use crate::lease::Lease;
pub use crate::queue::{destroy_next, destroy_one, destroy_several, Queue};
pub use crate::ticket::{Shared, Ticket};

verus! {

/// Room for a parcel that joins the queue when it is dropped.
#[verifier::reject_recursive_types(A)]
pub struct Deposit<T: Send + 'static, A: 'static> {
    parcel: Option<Parcel<T, A>>,
    queue: &'static Queue<A>,
}

impl<T: Send + 'static, A: 'static> Deposit<T, A> {
    /// The parcel, until it is on the queue.
    pub closed spec fn parcel(&self) -> Option<Parcel<T, A>> {
        self.parcel
    }

    /// The queue that the parcel will join.
    pub closed spec fn queue(&self) -> &'static Queue<A> {
        self.queue
    }

    fn get(&self) -> (value: &T)
        requires
            self.parcel() is Some,
        ensures
            *value == self.parcel()->0.value(),
    {
        match &self.parcel {
            Some(parcel) => parcel.get(),
            None => vstd::pervasive::unreached(),
        }
    }

    fn get_mut(&mut self) -> (value: &mut T)
        requires
            old(self).parcel() is Some,
        ensures
            *value == old(self).parcel()->0.value(),
            final(self).parcel() is Some,
            final(self).parcel()->0.value() == *final(value),
            final(self).parcel()->0.lease() == old(self).parcel()->0.lease(),
            final(self).parcel()->0.allocator() == old(self).parcel()->0.allocator(),
            final(self).parcel()->0.size() == old(self).parcel()->0.size(),
            final(self).queue() == old(self).queue(),
        opens_invariants none
        no_unwind
    {
        match &mut self.parcel {
            Some(parcel) => parcel.get_mut(),
            None => vstd::pervasive::unreached(),
        }
    }

    /// Takes the parcel out. Nothing is left to join the queue.
    fn take(&mut self) -> (parcel: Option<Parcel<T, A>>)
        ensures
            parcel == old(self).parcel(),
            final(self).parcel() is None,
            final(self).queue() == old(self).queue(),
        opens_invariants none
        no_unwind
    {
        let mut parcel: Option<Parcel<T, A>> = None;
        core::mem::swap(&mut parcel, &mut self.parcel);
        parcel
    }

    /// Takes the parcel out, before the deposit is dropped.
    fn into_inner(self) -> (r: (Parcel<T, A>, &'static Queue<A>))
        requires
            self.parcel() is Some,
        ensures
            r.0 == self.parcel()->0,
            r.1 == self.queue(),
    {
        let mut this = self;
        let parcel = this.take();
        assert(this.parcel() is None);
        (parcel.unwrap(), this.queue)
    }
}

impl<T: Send + 'static, A: 'static> Drop for Deposit<T, A> {
    /// Puts the parcel on the queue, unless it was taken out.
    fn drop(&mut self)
        ensures
            old(self).parcel() is None ==> *final(self) == *old(self),
            final(self).parcel() is None,
            final(self).queue() == old(self).queue(),
            old(self).parcel() matches Some(parcel) ==> exists|
                found: Seq<QueueStorageBox<A>>,
                left: Seq<QueueStorageBox<A>>,
            |
                old(self).queue().added(found, left, parcel),
        opens_invariants none
        no_unwind
    {
        if let Some(parcel) = self.take() {
            self.queue.add(parcel);
        }
    }
}

/// Holds a value on the heap. When the box is dropped, the value is not: it
/// joins the queue.
#[verifier::reject_recursive_types(A)]
pub struct RBox<T: Send + 'static, A: 'static = Global> {
    item: Deposit<T, A>,
}

impl<T: Send + 'static, A: 'static> RBox<T, A> {
    #[verifier::type_invariant]
    spec fn full(self) -> bool {
        self.item.parcel() is Some
    }

    /// The value with what it takes to queue it.
    pub closed spec fn parcel(&self) -> Parcel<T, A> {
        self.item.parcel()->0
    }

    /// The queue that the value will join.
    pub closed spec fn queue(&self) -> &'static Queue<A> {
        self.item.queue()
    }
}

impl<T: Send + 'static, A: 'static> View for RBox<T, A> {
    type V = T;

    open spec fn view(&self) -> T {
        self.parcel().value()
    }
}

impl<T: Send + 'static, A: 'static> RBox<T, A> {
    /// How many bytes the value and its place on the list take.
    pub open spec fn room() -> usize {
        vstd::layout::size_of::<(T, Link<A>)>() as usize
    }

    /// Moves `item` to the heap, if `reply`, the allocator's answer to the request
    /// for `size` bytes, permits it, and destroys it if not. It will join `queue` in
    /// the end.
    pub fn with_reply(
        item: T,
        alloc: A,
        size: usize,
        reply: Result<(), AllocError>,
        queue: &'static Queue<A>,
    ) -> (r: Result<Self, AllocError>)
        ensures
            match reply {
                Ok(()) => {
                    &&& r matches Ok(b)
                    &&& b@ == item
                    &&& b.parcel().allocator() == alloc
                    &&& b.parcel().size() == size
                    &&& b.queue() == queue
                },
                Err(e) => (r matches Err(f) && f == e) && destroyed(item),
            },
    {
        match Parcel::with_reply(item, alloc, size, reply) {
            Ok(parcel) => Ok(RBox { item: Deposit { parcel: Some(parcel), queue } }),
            Err(e) => Err(e),
        }
    }

    /// Moves `item` to the heap. It will join `queue` in the end.
    fn with_lease(item: T, lease: Lease<A>, queue: &'static Queue<A>) -> (b: Self)
        ensures
            b@ == item,
            b.parcel().lease() == lease,
            b.queue() == queue,
    {
        RBox { item: Deposit { parcel: Some(Parcel::with_lease(item, lease)), queue } }
    }

    /// Takes the box apart. Nothing joins the queue.
    fn into_inner(self) -> (r: (Parcel<T, A>, &'static Queue<A>))
        ensures
            r.0 == self.parcel(),
            r.1 == self.queue(),
    {
        proof {
            use_type_invariant(&self);
        }
        self.item.into_inner()
    }
}

impl<T: Send + 'static, A: Source + 'static> RBox<T, A> {
    /// Moves `item` to the heap, if the allocator has room for it, and destroys it if
    /// not. It will join `queue` in the end.
    pub fn try_new(item: T, alloc: A, queue: &'static Queue<A>) -> (r: Result<Self, AllocError>)
        ensures
            match r {
                Ok(b) => {
                    &&& alloc.asked(Self::room(), Ok(()))
                    &&& b@ == item
                    &&& b.parcel().allocator() == alloc
                    &&& b.parcel().size() == Self::room()
                    &&& b.queue() == queue
                },
                Err(e) => alloc.asked(Self::room(), Err(e)) && destroyed(item),
            },
    {
        let size: usize = core::mem::size_of::<(T, Link<A>)>();
        match ask(alloc, size) {
            Ok(lease) => Ok(RBox::with_lease(item, lease, queue)),
            Err(e) => {
                destroy_value(item);
                Err(e)
            },
        }
    }
}

impl<T: Send + 'static, A: 'static> Deref for RBox<T, A> {
    type Target = T;

    /// The value.
    fn deref(&self) -> (value: &T)
        ensures
            *value == self@,
    {
        proof {
            use_type_invariant(self);
        }
        self.item.get()
    }
}

impl<T: Send + 'static, A: 'static> DerefMut for RBox<T, A> {
    /// The value, to change.
    fn deref_mut(&mut self) -> (value: &mut T)
        ensures
            *value == old(self)@,
            final(self)@ == *final(value),
            final(self).parcel().allocator() == old(self).parcel().allocator(),
            final(self).parcel().size() == old(self).parcel().size(),
            final(self).queue() == old(self).queue(),
    {
        proof {
            use_type_invariant(&*self);
        }
        self.item.get_mut()
    }
}

/// Shares a value on the heap. When the last clone is dropped, the value is not:
/// it joins the queue.
#[verifier::reject_recursive_types(T)]
#[verifier::reject_recursive_types(A)]
pub struct RArc<T: Send + Sync + 'static, A: 'static = Global> {
    // Fields are dropped in the order of their declaration. Once a clone has
    // given its ticket back it no longer keeps the value alive, so the value
    // that the last ticket queues has no other owner.
    item: Arc<T>,
    ticket: Ticket<T, A>,
}

impl<T: Send + Sync + 'static, A: 'static> View for RArc<T, A> {
    type V = T;

    open spec fn view(&self) -> T {
        *self.shared().slot()@.value()
    }
}

impl<T: Send + Sync + 'static, A: 'static> RArc<T, A> {
    #[verifier::type_invariant]
    spec fn same_item(self) -> bool {
        &&& *self.item == *self.ticket.shared().slot()@.value()
        &&& self.ticket.live()
    }

    /// What is given back when the handle is dropped.
    pub closed spec fn ticket(&self) -> Ticket<T, A> {
        self.ticket
    }

    /// What it has in common with the other clones.
    pub open spec fn shared(&self) -> Shared<T, A> {
        self.ticket().shared()
    }

    /// The allocator that goes with the value if this is the last handle.
    pub open spec fn allocator(&self) -> A {
        self.ticket().allocator()->0
    }

    /// How many bytes the allocator gave.
    pub open spec fn size(&self) -> usize {
        self.shared().slot()@.size()
    }

    /// The queue that the value will join.
    pub open spec fn queue(&self) -> &'static Queue<A> {
        self.ticket().queue()
    }

    /// The count of the clones started from this handle alone, and the owner that
    /// the queue gets was put aside.
    pub open spec fn is_first(&self) -> bool {
        started_at(&self.shared().count(), 1) && self.shared().slot().filled()
    }

    /// How many bytes the value, the owner that the queue gets, what the clones have
    /// in common and the place on the list take, with two counters each for the value
    /// and for what the clones have in common, as they are in an `Arc`.
    pub open spec fn room() -> usize {
        vstd::layout::size_of::<([usize; 4], T, Arc<T>, Shared<T, A>, Link<A>)>() as usize
    }

    /// Moves `item` to the heap, if `reply`, the allocator's answer to the request
    /// for `size` bytes, permits it, and hands out the first handle. Destroys `item`
    /// if not. The value will join `queue` in the end.
    pub fn with_reply(
        item: T,
        alloc: A,
        size: usize,
        reply: Result<(), AllocError>,
        queue: &'static Queue<A>,
    ) -> (r: Result<Self, AllocError>)
        ensures
            match reply {
                Ok(()) => {
                    &&& r matches Ok(a)
                    &&& a@ == item
                    &&& a.ticket().live()
                    &&& a.ticket().allocator() == Some(alloc)
                    &&& a.size() == size
                    &&& a.queue() == queue
                    &&& a.is_first()
                },
                Err(e) => (r matches Err(f) && f == e) && destroyed(item),
            },
    {
        match reply {
            Ok(()) => Ok(RArc::with_lease(item, Lease::new(alloc, size), queue)),
            Err(e) => {
                destroy_value(item);
                Err(e)
            },
        }
    }

    /// Moves `item` to the heap and hands out the first handle. The value will join
    /// `queue` in the end.
    fn with_lease(item: T, lease: Lease<A>, queue: &'static Queue<A>) -> (a: Self)
        ensures
            a@ == item,
            a.ticket().live(),
            a.ticket().allocator() == Some(lease.owner()),
            a.size() == lease.size(),
            a.queue() == queue,
            a.is_first(),
    {
        let (parcel, queue) = RBox::with_lease(Arc::new(item), lease, queue).into_inner();
        let item = parcel.get().clone();
        let (shell, keep) = parcel.split();
        RArc { item, ticket: Ticket::first(shell, keep, queue) }
    }
}

impl<T: Send + Sync + 'static, A: Source + 'static> RArc<T, A> {
    /// Moves `item` to the heap, if the allocator has room for it, and hands out
    /// the first handle. Destroys `item` if not. The value will join `queue` in the
    /// end.
    pub fn try_new(item: T, alloc: A, queue: &'static Queue<A>) -> (r: Result<Self, AllocError>)
        ensures
            match r {
                Ok(a) => {
                    &&& alloc.asked(Self::room(), Ok(()))
                    &&& a@ == item
                    &&& a.ticket().live()
                    &&& a.ticket().allocator() == Some(alloc)
                    &&& a.size() == Self::room()
                    &&& a.queue() == queue
                    &&& a.is_first()
                },
                Err(e) => alloc.asked(Self::room(), Err(e)) && destroyed(item),
            },
    {
        let size: usize = core::mem::size_of::<
            ([usize; 4], T, Arc<T>, Shared<T, A>, Link<A>),
        >();
        match ask(alloc, size) {
            Ok(lease) => Ok(RArc::with_lease(item, lease, queue)),
            Err(e) => {
                destroy_value(item);
                Err(e)
            },
        }
    }
}

/// The wish for a clone. Each is good for one.
pub struct CloneOrder {
    made: Ghost<()>,
}

impl<T: Send + Sync + 'static, A: Clone + 'static> RArc<T, A> {
    /// One more handle of the same value, with a clone of the allocator. A refused
    /// handle stays in the count.
    pub fn clone(&self) -> (r: Result<Self, MaxBorrows>)
        ensures
            exists|before: usize|
                {
                    &&& #[trigger] counted_up(&self.shared().count(), before)
                    &&& r is Ok <==> granted(before as nat)
                },
            r matches Ok(a) ==> {
                &&& a@ == self@
                &&& a.shared() == self.shared()
                &&& a.queue() == self.queue()
                &&& a.ticket().allocator() is Some
                &&& call_ensures(A::clone, (&self.allocator(),), a.allocator())
                &&& a.ticket().made_from(self.ticket())
            },
    {
        proof {
            use_type_invariant(self);
        }
        let ticket = self.ticket.fork(CloneOrder { made: Ghost(()) });
        assert(self.shared() == self.ticket.shared());
        match ticket {
            Ok(ticket) => Ok(RArc { item: self.item.clone(), ticket }),
            Err(e) => Err(e),
        }
    }
}

impl<T: Send + Sync + 'static, A: 'static> Deref for RArc<T, A> {
    type Target = T;

    /// The value.
    fn deref(&self) -> (value: &T)
        ensures
            *value == self@,
    {
        proof {
            use_type_invariant(self);
        }
        &self.item
    }
}

/// A vector that is neither changed nor dropped before its queue hands it out.
pub struct FrozenVec<T: Send> {
    vec: Vec<T>,
}

impl<T: Send> View for FrozenVec<T> {
    type V = Seq<T>;

    closed spec fn view(&self) -> Seq<T> {
        self.vec@
    }
}

/// Holds a slice of values. When it is dropped, they are not: the slice joins
/// the queue.
#[verifier::reject_recursive_types(A)]
pub struct RSlice<T: Send + 'static, A: 'static = Global> {
    slice: RBox<FrozenVec<T>, A>,
}

impl<T: Send + 'static, A: 'static> View for RSlice<T, A> {
    type V = Seq<T>;

    open spec fn view(&self) -> Seq<T> {
        self.parcel().value()@
    }
}

impl<T: Send + 'static, A: 'static> RSlice<T, A> {
    /// The queue that the slice will join.
    pub closed spec fn queue(&self) -> &'static Queue<A> {
        self.slice.queue()
    }

    /// The slice with what it takes to queue it.
    pub closed spec fn parcel(&self) -> Parcel<FrozenVec<T>, A> {
        self.slice.parcel()
    }

    /// How many bytes the slice and its place on the list take. The values
    /// themselves are in memory already.
    pub open spec fn room() -> usize {
        RBox::<FrozenVec<T>, A>::room()
    }

    /// Keeps `items` as a slice, if `reply`, the allocator's answer to the request for
    /// `size` bytes, permits it, and destroys them if not. It will join `queue` in
    /// the end.
    pub fn with_reply(
        items: Vec<T>,
        alloc: A,
        size: usize,
        reply: Result<(), AllocError>,
        queue: &'static Queue<A>,
    ) -> (r: Result<Self, AllocError>)
        ensures
            match reply {
                Ok(()) => {
                    &&& r matches Ok(s)
                    &&& s@ == items@
                    &&& s.parcel().allocator() == alloc
                    &&& s.parcel().size() == size
                    &&& s.queue() == queue
                },
                Err(e) => (r matches Err(f) && f == e) && destroyed(items),
            },
    {
        match reply {
            Ok(()) => match RBox::with_reply(FrozenVec { vec: items }, alloc, size, reply, queue) {
                Ok(slice) => Ok(RSlice { slice }),
                Err(e) => Err(e),
            },
            Err(e) => {
                destroy_value(items);
                Err(e)
            },
        }
    }
}

impl<T: Send + 'static, A: Source + 'static> RSlice<T, A> {
    /// Keeps `items` as a slice, if the allocator has room for it, and destroys them
    /// if not. It will join `queue` in the end.
    pub fn try_new(items: Vec<T>, alloc: A, queue: &'static Queue<A>) -> (r: Result<
        Self,
        AllocError,
    >)
        ensures
            match r {
                Ok(s) => {
                    &&& alloc.asked(Self::room(), Ok(()))
                    &&& s@ == items@
                    &&& s.parcel().allocator() == alloc
                    &&& s.parcel().size() == Self::room()
                    &&& s.queue() == queue
                },
                Err(e) => alloc.asked(Self::room(), Err(e)) && destroyed(items),
            },
    {
        let size: usize = core::mem::size_of::<(FrozenVec<T>, Link<A>)>();
        match ask(alloc, size) {
            Ok(lease) => Ok(RSlice { slice: RBox::with_lease(FrozenVec { vec: items }, lease, queue) }),
            Err(e) => {
                destroy_value(items);
                Err(e)
            },
        }
    }
}

impl<T: Send + 'static, A: 'static> Deref for RSlice<T, A> {
    type Target = [T];

    /// The values.
    fn deref(&self) -> (values: &[T])
        ensures
            values@ == self@,
    {
        self.slice.deref().vec.as_slice()
    }
}

impl<T: Send + 'static, A: 'static> DerefMut for RSlice<T, A> {
    /// The values, to change.
    fn deref_mut(&mut self) -> (values: &mut [T])
        ensures
            values@ == old(self)@,
            final(self)@ == final(values)@,
            final(self).parcel().allocator() == old(self).parcel().allocator(),
            final(self).parcel().size() == old(self).parcel().size(),
            final(self).queue() == old(self).queue(),
    {
        self.slice.deref_mut().vec.as_mut_slice()
    }
}

} // verus!
