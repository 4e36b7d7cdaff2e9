//! The list of values that wait for their destruction.
use vstd::prelude::*;

use crate::allocator::{AllocError, Allocator, Source};
use crate::batch::Batch;
use crate::destruction::{abandon_value, abandoned, destroy_value, destroyed, Abandon};
use crate::lease::{settled, Account, Keep, Lease};
use crate::mutex::Mutex;

verus! {

/// What can be left to another thread to drop.
pub trait Payload: Send {

}

impl<T: Send> Payload for T {

}

/// A value on the cleanup list. Its type is erased; the memory that it takes stays
/// with it, to be given back.
pub struct QueueStorageBox<A> {
    pub the_box: Box<dyn Payload>,
    pub lease: Lease<A>,
}

/// A value on the list, next to its memory.
pub open spec fn erased<T: Send + 'static, A>(value: T, lease: Lease<A>) -> QueueStorageBox<A> {
    QueueStorageBox { the_box: Box::new(value), lease }
}

/// One element of the list: a value, and the link to the rest.
struct DN<A> {
    t: QueueStorageBox<A>,
    next: Option<Box<Link<A>>>,
}

/// Heap memory for one element of the list. It is allocated together with the
/// value that will use it, so that joining the list takes no allocation.
pub struct Link<A> {
    node: Option<DN<A>>,
}

/// The values from `next` on, first to last. A link without an element ends
/// the list.
spec fn chain<A>(next: Option<Box<Link<A>>>) -> Seq<QueueStorageBox<A>>
    decreases next,
{
    match next {
        Some(link) => match link.node {
            Some(node) => seq![node.t] + chain(node.next),
            None => Seq::empty(),
        },
        None => Seq::empty(),
    }
}

/// A link that is not in use.
struct SpareLink<A> {
    link: Box<Link<A>>,
}

impl<A> SpareLink<A> {
    #[verifier::type_invariant]
    spec fn unused(self) -> bool {
        self.link.node is None
    }
}

/// What accompanies a value to the cleanup list.
struct Escort<A> {
    link: SpareLink<A>,
    lease: Lease<A>,
}

/// A heap value with all that it takes to put it on the cleanup list.
///
/// Until then only the value is of interest. The mutex is never locked: it lets
/// threads share the value, as they may not share the allocator.
#[verifier::reject_recursive_types(A)]
pub struct Parcel<T, A> {
    value: Box<T>,
    escort: Mutex<Escort<A>>,
}

impl<T, A> Parcel<T, A> {
    pub closed spec fn value(self) -> T {
        *self.value
    }

    /// The memory that the value takes.
    pub closed spec fn lease(self) -> Lease<A> {
        self.escort@.lease
    }

    /// The allocator that gave room for the value.
    pub open spec fn allocator(self) -> A {
        self.lease().owner()
    }

    /// How many bytes it gave.
    pub open spec fn size(self) -> usize {
        self.lease().size()
    }

    pub(crate) fn get(&self) -> (value: &T)
        ensures
            *value == self.value(),
    {
        &self.value
    }

    pub(crate) fn get_mut(&mut self) -> (value: &mut T)
        ensures
            *value == old(self).value(),
            final(self).value() == *final(value),
            final(self).lease() == old(self).lease(),
            final(self).allocator() == old(self).allocator(),
            final(self).size() == old(self).size(),
        opens_invariants none
        no_unwind
    {
        &mut self.value
    }
}

/// The allocator was asked for `size` bytes and answered `reply`.
pub open spec fn answered<A: Allocator>(
    alloc: A,
    size: usize,
    reply: Result<(), AllocError>,
) -> bool {
    call_ensures(A::allocate, (&alloc, size), reply)
}

/// Asks the allocator for `size` bytes.
pub(crate) fn ask<A: Source>(alloc: A, size: usize) -> (r: Result<Lease<A>, AllocError>)
    ensures
        match r {
            Ok(lease) => {
                &&& alloc.asked(size, Ok(()))
                &&& lease.owner() == alloc
                &&& lease.size() == size
            },
            Err(e) => alloc.asked(size, Err(e)),
        },
{
    A::request(Account::open(alloc), size)
}

impl<T, A> Parcel<T, A> {
    /// Moves `value` to the heap.
    pub(crate) fn with_lease(value: T, lease: Lease<A>) -> (parcel: Self)
        ensures
            parcel.value() == value,
            parcel.lease() == lease,
    {
        let link = SpareLink { link: Box::new(Link { node: None }) };
        Parcel { value: Box::new(value), escort: Mutex::new(Escort { link, lease }) }
    }

    /// Moves `value` to the heap if `reply`, the allocator's answer to the request
    /// for `size` bytes, permits it, and destroys it if not.
    pub fn with_reply(
        value: T,
        alloc: A,
        size: usize,
        reply: Result<(), AllocError>,
    ) -> (r: Result<Self, AllocError>)
        ensures
            match reply {
                Ok(()) => {
                    &&& r matches Ok(parcel)
                    &&& parcel.value() == value
                    &&& parcel.allocator() == alloc
                    &&& parcel.size() == size
                },
                Err(e) => (r matches Err(f) && f == e) && destroyed(value),
            },
    {
        match reply {
            Ok(()) => Ok(Parcel::with_lease(value, Lease::new(alloc, size))),
            Err(e) => {
                destroy_value(value);
                Err(e)
            },
        }
    }
}

/// A heap value with its place on the cleanup list, but without its allocator.
pub struct Shell<T, A> {
    value: Box<T>,
    link: SpareLink<A>,
    size: usize,
}

impl<T, A> Shell<T, A> {
    pub closed spec fn value(self) -> T {
        *self.value
    }

    /// How many bytes the allocator gave.
    pub closed spec fn size(self) -> usize {
        self.size
    }

    /// The parcel that this is with the allocator `keep`.
    pub(crate) fn with_allocator(self, keep: Keep<A>) -> (parcel: Parcel<T, A>)
        ensures
            parcel.value() == self.value(),
            parcel.size() == self.size(),
            parcel.allocator() == keep.owner(),
        opens_invariants none
        no_unwind
    {
        let Shell { value, link, size } = self;
        Parcel { value, escort: Mutex::new(Escort { link, lease: Lease::join(keep, size) }) }
    }
}

impl<T, A> Parcel<T, A> {
    /// Parts the value from its allocator.
    pub(crate) fn split(self) -> (r: (Shell<T, A>, Keep<A>))
        ensures
            r.0.value() == self.value(),
            r.0.size() == self.size(),
            r.1.owner() == self.allocator(),
    {
        let Parcel { value, escort } = self;
        let Escort { link, lease } = escort.into_inner();
        let (keep, size) = lease.split();
        (Shell { value, link, size }, keep)
    }
}

impl<T: Send + 'static, A> Parcel<T, A> {
    /// What the list holds once the parcel is on it.
    pub open spec fn stored(self) -> QueueStorageBox<A> {
        erased(self.value(), self.lease())
    }
}

/// A value that has left the cleanup list and is still to be destroyed. Whoever
/// drops this instead drops the value, but keeps its memory from its allocator.
#[must_use]
pub struct Garbage<A> {
    link: Box<Link<A>>,
}

impl<A> Garbage<A> {
    #[verifier::type_invariant]
    spec fn detached(self) -> bool {
        self.link.node is Some && self.link.node->0.next is None
    }

    /// Whether this is `item`, and nothing but `item`.
    pub closed spec fn holds(self, item: QueueStorageBox<A>) -> bool {
        self.link.node == Some(DN { t: item, next: None })
    }

    /// It is one value only.
    pub proof fn lemma_holds_one(self, item: QueueStorageBox<A>)
        requires
            self.holds(item),
        ensures
            forall|other: QueueStorageBox<A>| #[trigger] self.holds(other) ==> other == item,
    {
    }
}

impl<A: Allocator> Garbage<A> {
    /// The value was destroyed, and then its allocator was told that its memory is no
    /// longer in use, which ended the lease.
    pub open spec fn was_destroyed(self) -> bool {
        exists|item: QueueStorageBox<A>|
            {
                &&& #[trigger] self.holds(item)
                &&& destroyed(item.the_box)
                &&& call_ensures(A::deallocate, (&item.lease.owner(), item.lease.size()), ())
                &&& settled(item.lease, A::deallocate, item.the_box)
            }
    }

    /// Destroys the value, and gives its memory back to its allocator.
    pub fn destroy(self)
        ensures
            self.was_destroyed(),
    {
        proof {
            use_type_invariant(&self);
        }
        let Garbage { mut link } = self;
        if let Some(node) = link.node.take() {
            let DN { t: QueueStorageBox { the_box, lease }, next: _ } = node;
            let ghost value = the_box;
            destroy_value(the_box);
            lease.settle(A::deallocate, Ghost(value));
            assert(self.holds(node.t));
        }
    }
}

/// How many values `n` extractions take off a list.
pub open spec fn at_most<X>(n: nat, list: Seq<X>) -> nat {
    if n < list.len() {
        n
    } else {
        list.len()
    }
}

/// `after` is `before` with `item` in front.
pub open spec fn one_added<X>(before: Seq<X>, after: Seq<X>, item: X) -> bool {
    after == seq![item] + before
}

/// `taken` is the first value of `before`, and `after` is the rest. With nothing
/// to take, nothing is taken.
pub open spec fn one_taken<A>(
    before: Seq<QueueStorageBox<A>>,
    after: Seq<QueueStorageBox<A>>,
    taken: Option<Garbage<A>>,
) -> bool {
    match taken {
        Some(garbage) => before.len() > 0 && garbage.holds(before[0]) && after
            == before.drop_first(),
        None => before.len() == 0 && after == before,
    }
}

/// `taken` are the first `n` values of `before`, or all of them if there are
/// fewer, and `after` is the rest.
pub open spec fn several_taken<A>(
    n: nat,
    before: Seq<QueueStorageBox<A>>,
    after: Seq<QueueStorageBox<A>>,
    taken: Seq<Garbage<A>>,
) -> bool {
    &&& taken.len() == at_most(n, before)
    &&& forall|i: int| 0 <= i < taken.len() ==> (#[trigger] taken[i]).holds(before[i])
    &&& after == before.skip(taken.len() as int)
}

/// The head of the cleanup list.
pub struct ToDeallocate<A> {
    next: Option<Box<Link<A>>>,
}

impl<A> View for ToDeallocate<A> {
    type V = Seq<QueueStorageBox<A>>;

    /// The waiting values, in the order in which they will be taken.
    closed spec fn view(&self) -> Seq<QueueStorageBox<A>> {
        chain(self.next)
    }
}

impl<A> Abandon for ToDeallocate<A> {

}

impl<A> Drop for ToDeallocate<A> {
    /// Abandons what is still on the list: only collecting a value destroys it.
    fn drop(&mut self)
        ensures
            final(self)@ == Seq::<QueueStorageBox<A>>::empty(),
            exists|list: ToDeallocate<A>| #[trigger] abandoned(list) && list@ == old(self)@,
        opens_invariants none
        no_unwind
    {
        let mut list: ToDeallocate<A> = ToDeallocate { next: None };
        core::mem::swap(&mut list, self);
        abandon_value(list);
    }
}

impl<A> ToDeallocate<A> {
    /// An empty list.
    pub fn new() -> (list: Self)
        ensures
            list@ == Seq::<QueueStorageBox<A>>::empty(),
        opens_invariants none
        no_unwind
    {
        ToDeallocate { next: None }
    }

    /// Puts a value on the list, in front of all others.
    pub fn add_item<T: Send + 'static>(&mut self, item: Parcel<T, A>)
        ensures
            one_added(old(self)@, final(self)@, item.stored()),
        opens_invariants none
        no_unwind
    {
        let Parcel { value, escort } = item;
        let Escort { link, lease } = escort.into_inner();
        proof {
            use_type_invariant(&link);
        }
        let SpareLink { mut link } = link;
        // No element is overwritten below, so none is dropped here.
        assert(link.node is None);
        let mut rest: Option<Box<Link<A>>> = None;
        core::mem::swap(&mut rest, &mut self.next);
        link.node = Some(DN { t: QueueStorageBox { the_box: value, lease }, next: rest });
        self.next = Some(link);
    }

    /// Takes the first value off the list, if there is one.
    pub fn extract_one(&mut self) -> (r: Option<Garbage<A>>)
        ensures
            one_taken(old(self)@, final(self)@, r),
    {
        match self.next.take() {
            Some(mut link) => match link.node.take() {
                Some(node) => {
                    let DN { t, next } = node;
                    self.next = next;
                    link.node = Some(DN { t, next: None });
                    assert(chain(self.next) =~= old(self)@.drop_first());
                    Some(Garbage { link })
                },
                None => None,
            },
            None => None,
        }
    }

    /// Takes values off the list, first to last, until `N` are taken or none is
    /// left.
    pub fn extract_several<const N: usize>(&mut self) -> (r: Batch<Garbage<A>, N>)
        ensures
            several_taken(N as nat, old(self)@, final(self)@, r@),
    {
        let mut batch: Batch<Garbage<A>, N> = Batch::new();
        while batch.len() < batch.capacity()
            invariant
                batch@.len() <= N,
                batch@.len() <= old(self)@.len(),
                forall|i: int| 0 <= i < batch@.len() ==> (#[trigger] batch@[i]).holds(old(self)@[i]),
                self@ == old(self)@.skip(batch@.len() as int),
            ensures
                batch@.len() == at_most(N as nat, old(self)@),
            decreases N - batch@.len(),
        {
            match self.extract_one() {
                Some(garbage) => {
                    let pushed = batch.push(garbage);
                    assert(pushed is Ok);
                },
                None => {
                    break ;
                },
            }
        }
        batch
    }
}

} // verus!
