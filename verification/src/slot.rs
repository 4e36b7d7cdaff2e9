//! Values that change behind a lock.
use core::cell::RefCell;
use core::sync::atomic::AtomicUsize;
use vstd::prelude::*;

use crate::borrows::Last;
use crate::mutex::Mutex;

verus! {

/// `core::cell::RefCell`. It changes behind a shared reference, so what it contains
/// is no part of what can be stated about it.
#[verifier::external_type_specification]
#[verifier::external_body]
#[verifier::reject_recursive_types(T)]
pub struct ExRefCell<T: ?Sized>(RefCell<T>);

/// Calls `RefCell::new`, which makes a cell with `value` in it. Nothing is stated of
/// the new cell: see `ExRefCell`.
#[verifier::external_body]
fn ref_cell<T>(value: T) -> RefCell<T> {
    RefCell::new(value)
}

/// The cell was made with `first` in it.
pub closed spec fn created<T>(cell: &RefCell<T>, first: T) -> bool {
    call_ensures(ref_cell::<T>, (first,), *cell)
}

/// Makes a cell with `first` in it.
pub(crate) fn create<T>(first: T) -> (cell: RefCell<T>)
    ensures
        created(&cell, first),
{
    ref_cell(first)
}

/// Holds an item for the last one in a count.
#[verifier::reject_recursive_types(P)]
pub struct Slot<P> {
    cell: Mutex<RefCell<Option<P>>>,
    item: Ghost<P>,
    count: Ghost<AtomicUsize>,
}

impl<P> View for Slot<P> {
    type V = P;

    /// The item that the slot was made for.
    closed spec fn view(&self) -> P {
        self.item@
    }
}

impl<P> Slot<P> {
    /// The slot was made with its item in it.
    pub closed spec fn filled(&self) -> bool {
        created(&self.cell@, Some(self@))
    }

    /// The count whose last one gets the item.
    pub closed spec fn count(&self) -> AtomicUsize {
        self.count@
    }

    /// Somebody wanted the item and got `out`.
    pub closed spec fn took(&self, out: Option<P>) -> bool {
        exists|last: Last| #[trigger] call_ensures(Slot::<P>::take_out, (self, last), out)
    }

    /// Whoever wanted the item got it: nobody came twice.
    pub open spec fn served_all(&self) -> bool {
        forall|out: Option<P>| #[trigger] self.took(out) ==> out is Some
    }

    /// A slot with `item` in it, for the last one in `count`.
    pub(crate) fn new(item: P, count: Ghost<AtomicUsize>) -> (slot: Self)
        ensures
            slot@ == item,
            slot.count() == count@,
            slot.filled(),
    {
        let ghost of = item;
        Slot { cell: Mutex::new(create(Some(item))), item: Ghost(of), count }
    }

    /// Calls `embassy_sync::blocking_mutex::Mutex::lock`, to have `RefCell::take`
    /// applied once to the cell in the critical section: it leaves `None` there, and
    /// returns what was there. Only `new` puts an item there, and only this function
    /// takes it, for the one that was the last in the count: there is one such, and
    /// it has not been here before. The cell is never borrowed when it is used, so
    /// `RefCell::take` does not panic.
    #[verifier::external_body]
    fn take_out(&self, last: Last) -> (out: Option<P>)
        requires
            last.of() == self.count(),
        ensures
            out == Some(self@),
        opens_invariants none
        no_unwind
    {
        self.cell.inner.lock(|cell| cell.take())
    }

    /// Nobody ever came in vain.
    pub proof fn lemma_served_all(&self)
        ensures
            self.served_all(),
    {
    }

    /// Takes the item.
    pub(crate) fn take(&self, last: Last) -> (item: P)
        requires
            last.of() == self.count(),
        ensures
            self.took(Some(item)),
            item == self@,
        opens_invariants none
        no_unwind
    {
        let out = self.take_out(last);
        assert(self.took(out));
        match out {
            Some(item) => item,
            None => vstd::pervasive::unreached(),
        }
    }
}

} // verus!
