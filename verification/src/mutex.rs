//! Mutual exclusion.
use embassy_sync::blocking_mutex::raw::CriticalSectionRawMutex;
use embassy_sync::blocking_mutex::Mutex as BlockingMutex;
use vstd::prelude::*;

verus! {

/// `embassy_sync`'s choice of a critical section as the locking mechanism.
#[verifier::external_type_specification]
#[verifier::external_body]
pub struct ExCriticalSectionRawMutex(CriticalSectionRawMutex);

/// `embassy_sync`'s blocking mutex.
#[verifier::external_type_specification]
#[verifier::external_body]
#[verifier::reject_recursive_types(R)]
#[verifier::reject_recursive_types(T)]
pub struct ExBlockingMutex<R, T: ?Sized>(BlockingMutex<R, T>);

/// A value that one thread at a time may look at. The lock is a critical
/// section: the thread that holds it can take it again, so what it grants is
/// shared access.
#[verifier::reject_recursive_types(T)]
pub struct Mutex<T> {
    pub(crate) inner: BlockingMutex<CriticalSectionRawMutex, T>,
    protected: Ghost<T>,
}

impl<T> View for Mutex<T> {
    type V = T;

    /// The protected value.
    closed spec fn view(&self) -> T {
        self.protected@
    }
}

impl<T> Mutex<T> {
    /// Calls `embassy_sync::blocking_mutex::Mutex::new`, which moves `t` into
    /// the mutex and does nothing else.
    #[verifier::external_body]
    pub fn new(t: T) -> (m: Self)
        ensures
            m@ == t,
        opens_invariants none
        no_unwind
    {
        Mutex { protected: Ghost(t), inner: BlockingMutex::new(t) }
    }

    /// Calls `embassy_sync::blocking_mutex::Mutex::lock`. It enters the critical
    /// section, applies `f` once to the protected value, leaves the critical
    /// section, and returns what `f` returned. Nothing moves or replaces the
    /// protected value while the mutex is shared, so it is the one that the
    /// mutex was made with.
    #[verifier::external_body]
    pub fn lock<U>(&self, f: impl FnOnce(&T) -> U) -> (u: U)
        requires
            f.requires((&self@,)),
        ensures
            f.ensures((&self@,), u),
    {
        self.inner.lock(f)
    }

    /// Calls `embassy_sync::blocking_mutex::Mutex::into_inner`, which hands the
    /// protected value out. It takes no lock, as nobody else has the mutex.
    #[verifier::external_body]
    pub(crate) fn into_inner(self) -> (t: T)
        ensures
            t == self@,
        opens_invariants none
        no_unwind
    {
        self.inner.into_inner()
    }
}

} // verus!
