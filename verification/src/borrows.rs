//! Counting the handles of a shared item.
use core::sync::atomic::{AtomicUsize, Ordering};
use vstd::prelude::*;

use crate::borrows::meter::{Meter, Raised, Unit};
use crate::remote_drop::CloneOrder;

pub mod meter;

verus! {

/// There are already as many handles as `isize::MAX`.
#[derive(Debug, Clone, Copy, PartialEq, Eq, Structural)]
pub struct MaxBorrows;

/// A clone that finds `before` in the count gets a handle.
pub open spec fn granted(before: nat) -> bool {
    before < isize::MAX
}

/// A drop that finds `before` in the count is that of the last handle.
pub open spec fn is_last(before: nat) -> bool {
    before == 1
}

/// Whether there can be one handle more, when `before` were found in the count.
pub fn may_borrow(before: usize) -> (r: Result<(), MaxBorrows>)
    ensures
        r is Ok <==> granted(before as nat),
{
    if before >= isize::MAX as usize {
        Err(MaxBorrows)
    } else {
        Ok(())
    }
}

/// The count was made, and started at 1, which is `unit`.
pub open spec fn started(meter: Meter<AtomicUsize>, unit: Unit<AtomicUsize>) -> bool {
    call_ensures(Meter::<AtomicUsize>::start::<_>, (AtomicUsize::new,), (meter, unit))
}

/// The count was made, and started at `first`.
pub open spec fn started_at(count: &AtomicUsize, first: usize) -> bool {
    &&& call_ensures(AtomicUsize::new, (first,), *count)
    &&& exists|meter: Meter<AtomicUsize>, unit: Unit<AtomicUsize>| #[trigger]
        started(meter, unit) && meter.count() == *count
}

/// One was added to the count, with one operation.
pub open spec fn raised(
    meter: Meter<AtomicUsize>,
    holder: Unit<AtomicUsize>,
    order: CloneOrder,
    r: Raised<AtomicUsize>,
) -> bool {
    call_ensures(
        Meter::<AtomicUsize>::raise::<_>,
        (&meter, &holder, order, AtomicUsize::fetch_add),
        r,
    )
}

/// One was added to the count, in which `before` were found.
pub open spec fn counted_up(count: &AtomicUsize, before: usize) -> bool {
    &&& call_ensures(AtomicUsize::fetch_add, (count, 1usize, Ordering::Relaxed), before)
    &&& exists|
        meter: Meter<AtomicUsize>,
        holder: Unit<AtomicUsize>,
        order: CloneOrder,
        r: Raised<AtomicUsize>,
    | #[trigger]
        raised(meter, holder, order, r) && meter.count() == *count && r.before == before
}

/// One was taken from the count, in which `before` were found.
pub closed spec fn counted_down(count: &AtomicUsize, before: usize) -> bool {
    exists|unit: Unit<AtomicUsize>|
        unit.of() == *count && #[trigger] call_ensures(fetch_sub_one, (count, unit), before)
}

/// Having found 1 in a count, when taking from it. Nobody else will: there was no
/// other unit of the count left, to take it or to add one. (The count would have
/// to overflow for that, which takes more refused clones than there is time for.)
pub struct Last {
    of: Ghost<AtomicUsize>,
}

impl Last {
    /// The count that it was found in.
    pub closed spec fn of(self) -> AtomicUsize {
        self.of@
    }
}

/// Calls `AtomicUsize::fetch_sub`, which takes one from the count and returns what
/// was found in it. It uses the unit up, which is the right to do so once. What that is depends on who used the count before. All that
/// the other handles did before they were counted down is visible to the one that
/// finds 1.
#[verifier::external_body]
fn fetch_sub_one(count: &AtomicUsize, unit: Unit<AtomicUsize>) -> usize
    requires
        unit.of() == *count,
    opens_invariants none
    no_unwind
{
    count.fetch_sub(1, Ordering::AcqRel)
}

/// Takes one from the count, and returns what was found in it.
pub(crate) fn count_down(meter: &Meter<AtomicUsize>, unit: Unit<AtomicUsize>) -> (r: (
    usize,
    Option<Last>,
))
    requires
        unit.of() == meter.count(),
    ensures
        counted_down(&meter.count(), r.0),
        r.1 is Some <==> is_last(r.0 as nat),
        r.1 matches Some(last) ==> last.of() == meter.count(),
    opens_invariants none
    no_unwind
{
    let count = meter.get();
    let before: usize = fetch_sub_one(count, unit);
    assert(call_ensures(fetch_sub_one, (count, unit), before));
    if before == 1 {
        (before, Some(Last { of: Ghost(*count) }))
    } else {
        (before, None)
    }
}

} // verus!
