//! Permits, which say how often a function may be called.

use crate::task::next_element;
use vstd::prelude::*;

verus! {

/// A permit for one call on one index. It is used up by the call.
///
/// What a permit allows cannot be looked into, so whoever has a function but only a permit for it
/// can call it just once.
pub struct Permit {
    index: usize,
}

impl Permit {
    /// The index of the call.
    pub closed spec fn index(self) -> usize {
        self.index
    }

    /// Whether the permit is for `build`.
    pub closed spec fn allows<T, F>(self, build: F) -> bool where F: FnOnce(usize) -> T {
        call_requires(build, (self.index,))
    }

    /// A permit for a function that can be called.
    pub(crate) fn grant<T, B>(index: usize, Ghost(build): Ghost<B>) -> (permit: Permit) where
        B: FnMut(usize) -> T,

        requires
            call_requires(build, (index,)),
        ensures
            permit.index() == index,
            permit.allows(build),
    {
        Permit { index }
    }

    /// Makes the call. The function is handed over for it, so there is one call and no other.
    pub(crate) fn redeem<T, F>(self, build: F, start: usize, built: &Vec<T>) -> (element: T) where
        F: FnOnce(usize) -> T,

        requires
            self.allows(build),
            self.index() == start + built@.len(),
        ensures
            call_ensures(next_element::<T, F>, (build, start, built), element),
    {
        next_element(build, start, built)
    }
}

/// A permit for a function is one for a borrow of that function.
pub proof fn lemma_permit_for_a_borrow<T, B>(permit: Permit, build: B) where B: FnMut(usize) -> T
    requires
        permit.allows(build),
    ensures
        forall|borrow: &mut B| *borrow == build ==> #[trigger] permit.allows(borrow),
{
}

} // verus!
