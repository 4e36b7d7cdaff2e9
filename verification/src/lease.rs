//! Memory that an allocator was asked for.
//!
//! No function here knows how to ask an allocator, or how to tell it anything. Each
//! gets what it calls from its caller, and can call it once. Nobody else gets at the
//! allocator inside: what is done with it is done by one of these functions.
use vstd::prelude::*;

use crate::allocator::AllocError;
use crate::borrows::meter::Pass;
use crate::destruction::destroyed;

verus! {

/// An allocator that is still to be asked.
pub struct Account<A> {
    alloc: A,
}

/// An allocator that was asked before.
pub struct Keep<A> {
    alloc: A,
}

/// Memory that is in use, and the allocator that gets it back.
pub struct Lease<A> {
    keep: Keep<A>,
    size: usize,
}

/// The allocator was asked for `size` bytes with `f`, on its account, and answered
/// `reply`. The account is closed by that.
pub open spec fn asked_once<A, F: FnOnce(&A, usize) -> Result<(), AllocError>>(
    alloc: A,
    size: usize,
    f: F,
    reply: Result<(), AllocError>,
) -> bool {
    exists|r: Result<Lease<A>, AllocError>|
        {
            &&& #[trigger] call_ensures(Account::<A>::ask::<F>, (Account::of(alloc), size, f), r)
            &&& match r {
                Ok(_) => reply == Ok::<(), AllocError>(()),
                Err(e) => reply == Err::<(), AllocError>(e),
            }
        }
}

/// The lease was ended with `f`, after `value` had been destroyed.
pub open spec fn settled<A, F: FnOnce(&A, usize), V>(lease: Lease<A>, f: F, value: V) -> bool {
    call_ensures(Lease::<A>::settle::<F, V>, (lease, f, Ghost(value)), ())
}

/// The second allocator was made from the first with `f`.
pub open spec fn copied_once<A, F: FnOnce(&A) -> A>(from: Keep<A>, f: F, to: Keep<A>) -> bool {
    exists|pass: Pass| #[trigger] call_ensures(Keep::<A>::copy::<F>, (&from, pass, f), to)
}

impl<A> Account<A> {
    /// The account of an allocator.
    pub closed spec fn of(alloc: A) -> Account<A> {
        Account { alloc }
    }

    /// Whose account it is.
    pub closed spec fn owner(self) -> A {
        self.alloc
    }

    /// Opens the account of an allocator.
    pub(crate) fn open(alloc: A) -> (account: Self)
        ensures
            account == Account::of(alloc),
            account.owner() == alloc,
    {
        Account { alloc }
    }

    /// Asks for `size` bytes, with `f`. Closes the account.
    pub fn ask<F: FnOnce(&A, usize) -> Result<(), AllocError>>(self, size: usize, f: F) -> (r: Result<
        Lease<A>,
        AllocError,
    >)
        requires
            f.requires((&self.owner(), size)),
        ensures
            self == Account::of(self.owner()),
            match r {
                Ok(lease) => {
                    &&& f.ensures((&self.owner(), size), Ok(()))
                    &&& lease.owner() == self.owner()
                    &&& lease.size() == size
                },
                Err(e) => f.ensures((&self.owner(), size), Err(e)),
            },
    {
        let reply = f(&self.alloc, size);
        match reply {
            Ok(unit) => {
                assert(unit == ());
                Ok(Lease { keep: Keep { alloc: self.alloc }, size })
            },
            Err(e) => Err(e),
        }
    }
}

impl<A> Keep<A> {
    pub closed spec fn owner(self) -> A {
        self.alloc
    }

    /// Makes one more allocator from this one, with `f`.
    pub fn copy<F: FnOnce(&A) -> A>(&self, pass: Pass, f: F) -> (keep: Self)
        requires
            f.requires((&self.owner(),)),
        ensures
            f.ensures((&self.owner(),), keep.owner()),
    {
        Keep { alloc: f(&self.alloc) }
    }
}

impl<A> Lease<A> {
    /// Who gets the memory back.
    pub closed spec fn owner(self) -> A {
        self.keep.owner()
    }

    /// How many bytes it is.
    pub closed spec fn size(self) -> usize {
        self.size
    }

    /// `size` bytes that `alloc` gave.
    pub(crate) fn new(alloc: A, size: usize) -> (lease: Self)
        ensures
            lease.owner() == alloc,
            lease.size() == size,
        opens_invariants none
        no_unwind
    {
        Lease { keep: Keep { alloc }, size }
    }

    /// Parts the allocator from the size.
    pub(crate) fn split(self) -> (r: (Keep<A>, usize))
        ensures
            r.0.owner() == self.owner(),
            r.1 == self.size(),
    {
        (self.keep, self.size)
    }

    /// Puts an allocator and a size together.
    pub(crate) fn join(keep: Keep<A>, size: usize) -> (lease: Self)
        ensures
            lease.owner() == keep.owner(),
            lease.size() == size,
        opens_invariants none
        no_unwind
    {
        Lease { keep, size }
    }

    /// Tells the allocator, with `f`, that its memory is no longer in use: `value`,
    /// which was there, has been destroyed.
    pub fn settle<F: FnOnce(&A, usize), V>(self, f: F, value: Ghost<V>) -> (done: ())
        requires
            destroyed(value@),
            f.requires((&self.owner(), self.size())),
        ensures
            f.ensures((&self.owner(), self.size()), ()),
    {
        f(&self.keep.alloc, self.size)
    }
}

} // verus!
