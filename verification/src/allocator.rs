//! Where the memory of boxes is asked for.
use vstd::prelude::*;

use crate::cleanup_list::answered;
use crate::lease::{asked_once, Account, Lease};

verus! {

/// The allocator had no memory to give.
#[derive(Debug, Clone, Copy, PartialEq, Eq, Structural)]
pub struct AllocError;

/// Keeps the books on memory: it is asked before any is used, and told when it
/// is no longer in use.
pub trait Allocator {
    /// Asks for `size` bytes.
    fn allocate(&self, size: usize) -> Result<(), AllocError>;

    /// Gives back `size` bytes that were asked for before.
    fn deallocate(&self, size: usize);
}

/// Who can be asked for the memory of a box, on its account.
pub trait Source: Sized {
    /// It was asked for `size` bytes, once, and answered `reply`.
    spec fn asked(self, size: usize, reply: Result<(), AllocError>) -> bool;

    /// Asks for `size` bytes.
    fn request(account: Account<Self>, size: usize) -> (r: Result<Lease<Self>, AllocError>)
        ensures
            match r {
                Ok(lease) => {
                    &&& account.owner().asked(size, Ok(()))
                    &&& lease.owner() == account.owner()
                    &&& lease.size() == size
                },
                Err(e) => account.owner().asked(size, Err(e)),
            },
    ;
}

impl<A: Allocator> Source for A {
    open spec fn asked(self, size: usize, reply: Result<(), AllocError>) -> bool {
        &&& answered(self, size, reply)
        &&& asked_once(self, size, A::allocate, reply)
    }

    fn request(account: Account<Self>, size: usize) -> (r: Result<Lease<Self>, AllocError>) {
        account.ask(size, A::allocate)
    }
}

/// The global heap, which never turns a request down.
#[derive(Debug, Clone, Copy, PartialEq, Eq, Structural)]
pub struct Global;

impl Allocator for Global {
    fn allocate(&self, size: usize) -> (r: Result<(), AllocError>)
        ensures
            r is Ok,
    {
        Ok(())
    }

    fn deallocate(&self, size: usize) {
    }
}

} // verus!
