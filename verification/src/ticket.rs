//! The shares that the clones of a shared item have in its count.
use core::sync::atomic::AtomicUsize;
use std::sync::Arc;
use vstd::prelude::*;

use crate::borrows::meter::{Meter, Raised, Unit};
use crate::borrows::{
    count_down, counted_down, counted_up, granted, is_last, may_borrow, raised, started,
    started_at, MaxBorrows,
};
use crate::cleanup_list::{Parcel, QueueStorageBox, Shell};
use crate::lease::{copied_once, Keep};
use crate::queue::Queue;
use crate::remote_drop::CloneOrder;
use crate::slot::Slot;

verus! {

/// A count that starts at `first`, which is one handle.
fn start_at(first: usize) -> (r: (Meter<AtomicUsize>, Unit<AtomicUsize>))
    requires
        first == 1,
    ensures
        started_at(&r.0.count(), first),
        r.1.of() == r.0.count(),
{
    let (meter, unit) = Meter::start(AtomicUsize::new);
    assert(started(meter, unit));
    (meter, unit)
}

/// Adds one to the count.
fn count_up(
    meter: &Meter<AtomicUsize>,
    holder: &Unit<AtomicUsize>,
    order: CloneOrder,
) -> (r: Raised<AtomicUsize>)
    requires
        holder.of() == meter.count(),
    ensures
        counted_up(&meter.count(), r.before),
        r.unit.of() == meter.count(),
{
    let r = meter.raise(holder, order, AtomicUsize::fetch_add);
    assert(raised(*meter, *holder, order, r));
    r
}

/// What the clones of a shared item have in common: how many there are, and the
/// owner that the queue gets.
#[verifier::reject_recursive_types(T)]
#[verifier::reject_recursive_types(A)]
pub struct Shared<T: Send + Sync + 'static, A: 'static> {
    meter: Meter<AtomicUsize>,
    slot: Slot<Shell<Arc<T>, A>>,
}

impl<T: Send + Sync + 'static, A: 'static> Shared<T, A> {
    #[verifier::type_invariant]
    spec fn slot_is_for_last(self) -> bool {
        self.slot.count() == self.meter.count()
    }

    /// How many clones there are.
    pub closed spec fn count(&self) -> AtomicUsize {
        self.meter.count()
    }

    /// Where the owner that the queue gets is kept.
    pub closed spec fn slot(&self) -> Slot<Shell<Arc<T>, A>> {
        self.slot
    }
}

/// One in the count of a shared item, and the allocator that goes with the item if
/// it is the last.
#[verifier::reject_recursive_types(T)]
#[verifier::reject_recursive_types(A)]
struct Stake<T: Send + Sync + 'static, A: 'static> {
    shared: Arc<Shared<T, A>>,
    unit: Unit<AtomicUsize>,
    keep: Keep<A>,
}

impl<T: Send + Sync + 'static, A: 'static> Stake<T, A> {
    #[verifier::type_invariant]
    spec fn is_in_count(self) -> bool {
        self.unit.of() == self.shared.count()
    }
}

/// A clone's share in the count.
#[verifier::reject_recursive_types(T)]
#[verifier::reject_recursive_types(A)]
pub struct Ticket<T: Send + Sync + 'static, A: 'static> {
    stake: Option<Stake<T, A>>,
    queue: &'static Queue<A>,
}

impl<T: Send + Sync + 'static, A: 'static> Ticket<T, A> {
    /// What it has in common with the tickets of the other clones.
    pub closed spec fn shared(&self) -> Shared<T, A> {
        *self.stake->0.shared
    }

    /// The allocator that goes with the item if this is the last ticket, until it is
    /// given back.
    pub closed spec fn keep(&self) -> Option<Keep<A>> {
        match self.stake {
            Some(stake) => Some(stake.keep),
            None => None,
        }
    }

    /// The allocator inside.
    pub open spec fn allocator(&self) -> Option<A> {
        match self.keep() {
            Some(keep) => Some(keep.owner()),
            None => None,
        }
    }

    /// The queue that the item will join.
    pub closed spec fn queue(&self) -> &'static Queue<A> {
        self.queue
    }

    /// It has not been given back.
    pub open spec fn live(&self) -> bool {
        self.allocator() is Some
    }

    /// The item joined the queue, together with the allocator of this ticket.
    pub open spec fn queued(&self) -> bool {
        exists|
            found: Seq<QueueStorageBox<A>>,
            left: Seq<QueueStorageBox<A>>,
            parcel: Parcel<Arc<T>, A>,
        |
            {
                &&& #[trigger] self.queue().added(found, left, parcel)
                &&& parcel.value() == self.shared().slot()@.value()
                &&& parcel.size() == self.shared().slot()@.size()
                &&& Some(parcel.allocator()) == self.allocator()
            }
    }

    /// The item was taken from the slot, and joined the queue.
    pub open spec fn took_item(&self) -> bool {
        self.shared().slot().took(Some(self.shared().slot()@)) && self.queued()
    }

    /// The ticket was given back, when there were `before`. The last one took the item
    /// out of the slot, and put it on the queue.
    pub open spec fn given_back(&self, before: usize) -> bool {
        &&& counted_down(&self.shared().count(), before)
        &&& is_last(before as nat) ==> self.took_item()
    }

    /// It was made from another, and its allocator from the other's, with one clone.
    pub open spec fn made_from(&self, other: Ticket<T, A>) -> bool where A: Clone {
        &&& self.live()
        &&& self.shared() == other.shared()
        &&& self.queue() == other.queue()
        &&& call_ensures(A::clone, (&other.allocator()->0,), self.allocator()->0)
        &&& copied_once(other.keep()->0, A::clone, self.keep()->0)
    }

    /// The first ticket of an item.
    pub(crate) fn first(
        shell: Shell<Arc<T>, A>,
        keep: Keep<A>,
        queue: &'static Queue<A>,
    ) -> (ticket: Self)
        ensures
            ticket.live(),
            ticket.shared().slot()@ == shell,
            ticket.shared().slot().filled(),
            started_at(&ticket.shared().count(), 1),
            ticket.allocator() == Some(keep.owner()),
            ticket.queue() == queue,
    {
        let (meter, unit) = start_at(1);
        let slot = Slot::new(shell, Ghost(meter.count()));
        let shared = Arc::new(Shared { meter, slot });
        Ticket { stake: Some(Stake { shared, unit, keep }), queue }
    }

    /// One more ticket.
    pub(crate) fn fork(&self, order: CloneOrder) -> (r: Result<Self, MaxBorrows>) where A: Clone
        requires
            self.live(),
        ensures
            exists|before: usize|
                {
                    &&& #[trigger] counted_up(&self.shared().count(), before)
                    &&& r is Ok <==> granted(before as nat)
                },
            r matches Ok(ticket) ==> ticket.made_from(*self),
    {
        match &self.stake {
            Some(stake) => {
                proof {
                    use_type_invariant(stake);
                }
                let Raised { before, unit, pass } = count_up(
                    &stake.shared.meter,
                    &stake.unit,
                    order,
                );
                assert(counted_up(&self.shared().count(), before));
                match may_borrow(before) {
                    Ok(()) => {
                        let shared = stake.shared.clone();
                        let keep = stake.keep.copy(pass, A::clone);
                        Ok(Ticket { stake: Some(Stake { shared, unit, keep }), queue: self.queue })
                    },
                    Err(e) => Err(e),
                }
            },
            None => vstd::pervasive::unreached(),
        }
    }
}

impl<T: Send + Sync + 'static, A: 'static> Drop for Ticket<T, A> {
    /// Gives the ticket back. The last one puts the value on the queue.
    fn drop(&mut self)
        ensures
            old(self).live() ==> exists|before: usize| old(self).given_back(before),
            !old(self).live() ==> *final(self) == *old(self),
            !final(self).live(),
        opens_invariants none
        no_unwind
    {
        let mut stake: Option<Stake<T, A>> = None;
        core::mem::swap(&mut stake, &mut self.stake);
        if let Some(stake) = stake {
            proof {
                use_type_invariant(&stake);
                use_type_invariant(&*stake.shared);
            }
            let Stake { shared, unit, keep } = stake;
            let (before, last) = count_down(&shared.meter, unit);
            if let Some(last) = last {
                let parcel = shared.slot.take(last).with_allocator(keep);
                let queue = self.queue;
                queue.add(parcel);
                assert(queue == old(self).queue());
                assert(old(self).queued());
            }
            assert(old(self).given_back(before));
        }
    }
}

} // verus!
