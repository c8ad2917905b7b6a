//! What the library takes from outside: wakers, the number of cores, and the identity of shared
//! memory. The contracts here are trusted.

use crate::shared::Shared;
use std::sync::Arc;
use vstd::prelude::*;

verus! {

/// `atomic_waker::AtomicWaker`, a cell for the waker of the task that waits for a result. Nothing
/// is known of what is inside.
#[verifier::external_type_specification]
#[verifier::external_body]
pub struct ExAtomicWaker(atomic_waker::AtomicWaker);

/// `std::task::Waker`, a handle to a waiting task. It is only passed on.
#[verifier::external_type_specification]
#[verifier::external_body]
pub struct ExWaker(std::task::Waker);

/// `std::task::Poll`, with its two variants.
#[verifier::external_type_specification]
#[verifier::reject_recursive_types(T)]
pub struct ExPoll<T>(std::task::Poll<T>);

/// `AtomicWaker::new` makes a cell without a waker.
pub assume_specification[ atomic_waker::AtomicWaker::new ]() -> atomic_waker::AtomicWaker;

/// `AtomicWaker::register` keeps the waker for the next call of `wake`. What it does to the cell
/// and to the task behind the waker is not stated: the cell changes behind a shared reference.
pub assume_specification[ atomic_waker::AtomicWaker::register ](
    cell: &atomic_waker::AtomicWaker,
    waker: &std::task::Waker,
);

/// `AtomicWaker::wake` wakes the task whose waker was registered last, if there is one. What it
/// does to the cell and to that task is not stated, as for `register`.
pub assume_specification[ atomic_waker::AtomicWaker::wake ](cell: &atomic_waker::AtomicWaker);

/// `num_cpus::get` gives the number of cores that are available. It is at least one. Which number
/// it is depends on the machine, on the affinity of the thread and on its limits.
pub assume_specification[ num_cpus::get ]() -> (cores: usize)
    ensures
        cores >= 1,
;

/// `Arc::ptr_eq` tells whether two pointers share one allocation. If they do, they lead to the
/// same value. If they do not, they lead to different values, because what is shared holds a lock:
/// its cell has an identity of its own, which no other value has.
#[verifier::external_body]
pub(crate) fn same_allocation<T>(left: &Arc<Shared<T>>, right: &Arc<Shared<T>>) -> (same: bool)
    ensures
        same == (*left == *right),
{
    Arc::ptr_eq(left, right)
}

/// `Arc::strong_count` counts the pointers that share one allocation. The pointer that is asked is
/// one of them. How many others there are is up to those who keep them, on whatever thread.
#[verifier::external_body]
pub(crate) fn holders_of<T>(pointer: &Arc<T>) -> (holders: usize)
    ensures
        holders >= 1,
{
    Arc::strong_count(pointer)
}

/// `Arc::as_ptr`, as a number: the address of the value that is pointed to. Which address that is
/// depends on the allocator.
#[verifier::external_body]
pub(crate) fn address<T>(pointer: &Arc<T>) -> usize {
    Arc::as_ptr(pointer) as usize
}

/// `usize::hash` feeds a number into a hasher. What that does to the hasher is the hasher's own
/// affair.
#[verifier::external_body]
pub(crate) fn feed<H: std::hash::Hasher>(word: usize, state: &mut H) {
    std::hash::Hash::hash(&word, state)
}

} // verus!
