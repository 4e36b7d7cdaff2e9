//! Ending a value's life, or keeping it from ending.
use vstd::prelude::*;

verus! {

/// Calls `core::mem::drop`, which runs the destructor of `value`.
#[verifier::external_body]
fn drop_value<X>(value: X) {
    core::mem::drop(value)
}

/// The destructor of `value` was run.
pub closed spec fn destroyed<X>(value: X) -> bool {
    call_ensures(drop_value::<X>, (value,), ())
}

/// Runs the destructor of `value`.
pub(crate) fn destroy_value<X>(value: X)
    ensures
        destroyed(value),
{
    drop_value(value)
}

/// What can be left where it is for good.
pub trait Abandon {

}

/// Calls `core::mem::forget`, which takes `value` and does not run its destructor.
#[verifier::external_body]
fn forget_value<X: Abandon>(value: X)
    opens_invariants none
    no_unwind
{
    core::mem::forget(value)
}

/// `value` was left where it is for good, without its destructor being run.
pub closed spec fn abandoned<X: Abandon>(value: X) -> bool {
    call_ensures(forget_value::<X>, (value,), ())
}

/// Leaves `value` where it is for good.
pub(crate) fn abandon_value<X: Abandon>(value: X)
    ensures
        abandoned(value),
    opens_invariants none
    no_unwind
{
    forget_value(value)
}

} // verus!
