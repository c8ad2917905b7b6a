//! The vector that a build results in.

use crate::plan::{law_joined_slices_are_the_vector, Plan};
use crate::ledger::Ledger;
use crate::progress::{join, joined, slots_view};
use crate::shared::{law_waker_comes_first, Claim, Shared};
use std::sync::Arc;
use std::task::{Poll, Waker};
use vstd::prelude::*;

verus! {

/// The completed vector, once there is one.
///
/// It waits for all [`SliceTask`](crate::SliceTask)s to complete and then assembles
/// the final vector.
///
/// A `VecResult` has the one claim to its vector. It is used up when the vector is handed out or
/// given up, and it is lost with the `VecResult`: tasks that have not run by then refuse to.
///
/// Whoever does not want the vector any more had better [`abandon`](Self::abandon) it. The lock
/// around the slots never drops what it holds, so slices that have been delivered to a
/// `VecResult` that is merely dropped are leaked.
#[verifier::reject_recursive_types(I)]
#[must_use]
pub struct VecResult<I> {
    shared: Arc<Shared<I>>,
    len: usize,
    claim: Option<Claim<I>>,
}

impl<I> VecResult<I> {
    /// The plan of the build.
    pub open spec fn plan(&self) -> Plan<I> {
        self.shared().plan()
    }

    /// What the tasks of the build share with the result.
    pub closed spec fn shared(&self) -> Shared<I> {
        *self.shared
    }

    /// The claim to the vector, as long as there is one.
    pub closed spec fn claim(&self) -> Option<Claim<I>> {
        self.claim
    }

    /// Whether the vector has been handed out or given up.
    pub open spec fn completed(&self) -> bool {
        self.claim() is None
    }

    /// The result knows the length of its vector, and its claim is to that vector.
    pub closed spec fn wf(&self) -> bool {
        &&& self.plan().wf()
        &&& self.plan().len == self.len
        &&& self.claim matches Some(claim) ==> claim.wf() && claim.shared() == self.shared()
    }

    /// The result of a build of `len` elements.
    pub(crate) fn new(shared: Arc<Shared<I>>, claim: Claim<I>, len: usize) -> (result: Self)
        requires
            shared.plan().wf(),
            shared.plan().len == len,
            claim.wf(),
            claim.shared() == *shared,
        ensures
            result.wf(),
            result.claim() == Some(claim),
            result.shared() == *shared,
    {
        VecResult { shared, len, claim: Some(claim) }
    }

    /// Whether the vector has been handed out or given up. It cannot be asked for again.
    pub fn is_complete(&self) -> (complete: bool)
        ensures
            complete == self.completed(),
    {
        self.claim.is_none()
    }

    /// Asks for the vector. If some task is not done yet, `waker` is woken when the last one is.
    ///
    /// It must not be called after the vector has been handed out. The waker is left first. Then
    /// the progress that the tasks have made by then is asked for its slots, and if all of them
    /// are filled, their slices are put together.
    pub fn poll(&mut self, waker: &Waker) -> (poll: Poll<Vec<I>>)
        requires
            old(self).wf(),
            !old(self).completed(),
        ensures
            final(self).wf(),
            final(self).shared() == old(self).shared(),
            old(self).claim()->0.shared() == old(self).shared(),
            match poll {
                Poll::Ready(vec) => {
                    &&& final(self).completed()
                    &&& old(self).plan().finished(vec@)
                    &&& exists|
                        before: Ledger<I>,
                        after: Ledger<I>,
                        slots: Vec<Option<Vec<I>>>,
                    |
                        {
                            &&& #[trigger] old(self).claim()->0.asks(
                                waker,
                                before,
                                after,
                                Poll::Ready(slots),
                            )
                            &&& old(self).shared().polls(before, after, Poll::Ready(slots))
                            &&& vec@ == joined(slots_view(slots@))
                        }
                },
                Poll::Pending => {
                    &&& *final(self) == *old(self)
                    &&& exists|before: Ledger<I>, after: Ledger<I>|
                        {
                            &&& #[trigger] old(self).claim()->0.asks(
                                waker,
                                before,
                                after,
                                Poll::Pending,
                            )
                            &&& old(self).shared().polls(before, after, Poll::Pending)
                        }
                },
            },
    {
        match self.claim.take() {
            Some(claim) => match claim.poll(waker) {
                Ok(slots) => {
                    proof {
                        let (before, after) = choose|before: Ledger<I>, after: Ledger<I>|
                            #[trigger] claim.asks(waker, before, after, Poll::Ready(slots));
                        law_waker_comes_first(claim, waker, before, after, Poll::Ready(slots));
                        law_joined_slices_are_the_vector(self.plan(), slots_view(slots@));
                    }
                    Poll::Ready(join(slots, self.len))
                },
                Err(returned) => {
                    proof {
                        let (before, after) = choose|before: Ledger<I>, after: Ledger<I>|
                            #[trigger] claim.asks(waker, before, after, Poll::Pending);
                        law_waker_comes_first(claim, waker, before, after, Poll::Pending);
                    }
                    self.claim = Some(returned);
                    Poll::Pending
                },
            },
            None => Poll::Pending,
        }
    }

    /// Gives the vector up. What the slots hold is dropped, and tasks that have not run by then
    /// refuse to. A result that is complete has nothing to give up.
    pub fn abandon(&mut self)
        requires
            old(self).wf(),
        ensures
            final(self).wf(),
            final(self).shared() == old(self).shared(),
            final(self).completed(),
            !old(self).completed() ==> exists|
                before: Ledger<I>,
                after: Ledger<I>,
                slots: Vec<Option<Vec<I>>>,
            | #[trigger] old(self).shared().releases(before, after, slots),
    {
        if let Some(claim) = self.claim.take() {
            claim.abandon();
        }
    }
}

} // verus!
