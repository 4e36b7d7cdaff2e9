//! A bounded number of values, held without the heap.
use vstd::prelude::*;

verus! {

/// `heapless`' vector of fixed capacity.
#[verifier::external_type_specification]
#[verifier::external_body]
#[verifier::reject_recursive_types(T)]
pub struct ExHeaplessVec<T, const N: usize>(heapless::Vec<T, N>);

/// Up to `N` values, in the order in which they came in. Only the functions of
/// this module that call `heapless` make or change one, and each of them says
/// what it does to the values.
#[verifier::reject_recursive_types(T)]
pub struct Batch<T, const N: usize> {
    vec: heapless::Vec<T, N>,
    items: Ghost<Seq<T>>,
}

impl<T, const N: usize> View for Batch<T, N> {
    type V = Seq<T>;

    closed spec fn view(&self) -> Seq<T> {
        self.items@
    }
}

impl<T, const N: usize> Batch<T, N> {
    /// Calls `heapless::Vec::new`, which makes an empty vector.
    #[verifier::external_body]
    pub(crate) fn new() -> (batch: Self)
        ensures
            batch@ == Seq::<T>::empty(),
    {
        Batch { vec: heapless::Vec::new(), items: Ghost(Seq::empty()) }
    }

    /// Calls `heapless::Vec::capacity`, which is the constant `N`.
    #[verifier::external_body]
    pub(crate) fn capacity(&self) -> (n: usize)
        ensures
            n == N,
    {
        self.vec.capacity()
    }

    /// Calls `heapless::Vec::len`, through its slice: the number of values held.
    #[verifier::external_body]
    pub(crate) fn len(&self) -> (n: usize)
        ensures
            n == self@.len(),
    {
        self.vec.len()
    }

    /// Calls `heapless::Vec::push`. It appends `item` while fewer than `N` values
    /// are held, and hands `item` back otherwise.
    #[verifier::external_body]
    pub(crate) fn push(&mut self, item: T) -> (r: Result<(), T>)
        ensures
            old(self)@.len() < N ==> r is Ok && final(self)@ == old(self)@.push(item),
            old(self)@.len() >= N ==> (r matches Err(back) && back == item) && final(self)@ == old(
                self,
            )@,
    {
        self.vec.push(item)
    }

    /// Calls `heapless::Vec::remove` on index 0, which takes out the first value and
    /// keeps the others in their order. It panics if there is none.
    #[verifier::external_body]
    pub(crate) fn remove_first(&mut self) -> (item: T)
        requires
            old(self)@.len() > 0,
        ensures
            item == old(self)@[0],
            final(self)@ == old(self)@.drop_first(),
    {
        self.vec.remove(0)
    }
}

} // verus!
