//! Functions whose calls are recorded.

use crate::permit::{lemma_permit_for_a_borrow, Permit};
use crate::task::{comes_after, has_built, next_element};
use vstd::prelude::*;

verus! {

/// One call of a function: on which index it was made, what came back, and in which state the
/// call found the function and left it.
#[verifier::reject_recursive_types(T)]
#[verifier::reject_recursive_types(B)]
pub struct Call<T, B> {
    pub index: usize,
    pub element: Box<T>,
    pub found: Box<B>,
    pub left: Box<B>,
}

/// A function, and all the calls of it that have been made.
#[verifier::reject_recursive_types(T)]
#[verifier::reject_recursive_types(B)]
pub struct Recorded<T, B> {
    build: B,
    calls: Ghost<Seq<Call<T, B>>>,
}

impl<T, B> Recorded<T, B> {
    /// The function, in its current state.
    pub closed spec fn build_fn(&self) -> B {
        self.build
    }

    /// The calls that have been made, in order.
    pub closed spec fn calls(&self) -> Seq<Call<T, B>> {
        self.calls@
    }

    /// A function that has not been called.
    pub(crate) fn new(build: B) -> (recorded: Self)
        ensures
            recorded.build_fn() == build,
            recorded.calls() == Seq::<Call<T, B>>::empty(),
    {
        Recorded { build, calls: Ghost(Seq::empty()) }
    }
}

impl<T, B> Recorded<T, B> where B: FnMut(usize) -> T {
    /// Builds the element that follows those in `built`, which start at index `start`. All of them
    /// have to be there by then, so elements are built in ascending order.
    ///
    /// The value of a function stands for what it may do in any of its states, so a call leaves it
    /// as it is.
    pub(crate) fn next(&mut self, permit: Permit, start: usize, built: &Vec<T>) -> (element: T)
        requires
            permit.allows(old(self).build_fn()),
            permit.index() == start + built@.len(),
            has_built(old(self).build_fn(), start, built@),
        ensures
            final(self).build_fn() == old(self).build_fn(),
            final(self).calls() == old(self).calls().push(
                (Call {
                    index: permit.index(),
                    element: Box::new(element),
                    found: Box::new(old(self).build_fn()),
                    left: Box::new(final(self).build_fn()),
                }),
            ),
            call_ensures(old(self).build_fn(), (permit.index(),), element),
            comes_after::<T, B>(start, built@, element),
    {
        let ghost found = self.build;
        let ghost index = permit.index();
        proof {
            lemma_permit_for_a_borrow(permit, self.build);
        }
        let element = permit.redeem(&mut self.build, start, built);
        proof {
            self.calls@ = self.calls@.push(
                Call {
                    index,
                    element: Box::new(element),
                    found: Box::new(found),
                    left: Box::new(self.build),
                },
            );
        }
        element
    }
}

} // verus!
