//! A count that is changed one by one.
//!
//! No function here knows what a count is. Each that makes or raises one gets the
//! operation from its caller, and can call it once.
use core::sync::atomic::Ordering;
use vstd::prelude::*;

use crate::remote_drop::CloneOrder;

verus! {

/// A count.
pub struct Meter<C> {
    count: C,
}

/// One in a count. Whoever has it may take it from the count, and can do so once.
pub struct Unit<C> {
    of: Ghost<C>,
}

/// The leave to copy an allocator once.
pub struct Pass {
    made: Ghost<()>,
}

/// What comes of raising a count.
pub struct Raised<C> {
    /// What was found in the count.
    pub before: usize,
    /// The one that was added to it.
    pub unit: Unit<C>,
    pub pass: Pass,
}

impl<C> Unit<C> {
    /// The count that it is one in.
    pub closed spec fn of(self) -> C {
        self.of@
    }
}

impl<C> Meter<C> {
    pub closed spec fn count(&self) -> C {
        self.count
    }

    /// Makes a count of one, with `f`.
    pub fn start<F: FnOnce(usize) -> C>(f: F) -> (r: (Self, Unit<C>))
        requires
            f.requires((1usize,)),
        ensures
            f.ensures((1usize,), r.0.count()),
            r.1.of() == r.0.count(),
    {
        let count = f(1);
        let ghost of = count;
        (Meter { count }, Unit { of: Ghost(of) })
    }

    /// Adds one to the count, with `f`. Only who has one in it can do so.
    pub fn raise<F: FnOnce(&C, usize, Ordering) -> usize>(
        &self,
        holder: &Unit<C>,
        order: CloneOrder,
        f: F,
    ) -> (r: Raised<C>)
        requires
            holder.of() == self.count(),
            f.requires((&self.count(), 1usize, Ordering::Relaxed)),
        ensures
            f.ensures((&self.count(), 1usize, Ordering::Relaxed), r.before),
            r.unit.of() == self.count(),
    {
        let before: usize = f(&self.count, 1, Ordering::Relaxed);
        Raised { before, unit: Unit { of: Ghost(self.count) }, pass: Pass { made: Ghost(()) } }
    }

    /// The count, to take from it.
    pub(super) fn get(&self) -> (count: &C)
        ensures
            *count == self.count(),
        opens_invariants none
        no_unwind
    {
        &self.count
    }
}

} // verus!
