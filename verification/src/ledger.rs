//! The progress of a build, and who may change it.

use crate::progress::{missing, Progress};
use crate::right::{Right, Terms};
use std::task::Poll;
use vstd::prelude::*;

verus! {

/// That no slot is left empty. It comes from the delivery that filled the last one.
pub struct Last {
    complete: Ghost<bool>,
}

/// The progress of a build under the terms of that build.
///
/// A ledger changes by steps. Filling a slot takes the right of its task, and taking the slots
/// away takes the claim. Nobody can make a second ledger under the same terms, because that would
/// take a second seal.
pub struct Ledger<T> {
    progress: Progress<T>,
    seal: Right,
    terms: Ghost<Terms>,
}

impl<T> View for Ledger<T> {
    type V = Option<Seq<Option<Seq<T>>>>;

    /// The slots, or nothing once they have been taken away.
    open spec fn view(&self) -> Self::V {
        self.progress()@
    }
}

impl<T> Ledger<T> {
    /// The progress of the build.
    pub closed spec fn progress(&self) -> Progress<T> {
        self.progress
    }

    /// The terms of the build.
    pub closed spec fn terms(&self) -> Terms {
        self.terms@
    }

    /// The ledger has its seal.
    pub closed spec fn wf(&self) -> bool {
        &&& self.progress.wf()
        &&& self.seal == self.terms@.seal
    }

    /// The ledger of a build by `tasks` tasks of which none is done.
    pub(crate) fn new(tasks: usize, seal: Right, Ghost(terms): Ghost<Terms>) -> (ledger: Self)
        requires
            seal == terms.seal,
        ensures
            ledger.wf(),
            ledger.progress().wf(),
            ledger.terms() == terms,
            ledger@ == Some(Seq::new(tasks as nat, |k: int| None::<Seq<T>>)),
            missing(ledger@->0) == tasks,
    {
        Ledger { progress: Progress::new(tasks), seal, terms: Ghost(terms) }
    }

    /// Whether the vector is still wanted: the slots exist, and of the `holders` of what a build
    /// shares, one is not among the tasks.
    pub(crate) fn is_wanted(&self, holders: usize) -> (wanted: bool)
        ensures
            wanted == (self@ is Some && holders > 1),
            call_ensures(Progress::<T>::is_wanted, (&self.progress(), holders), wanted),
    {
        self.progress.is_wanted(holders)
    }

    /// Puts the slice of task `k` into its slot, which uses up the right of the task. The result
    /// tells whether that was the last slice that was missing. A slice that is not awaited is
    /// given back.
    pub(crate) fn deliver(self, right: Right, k: usize, slice: Vec<T>) -> (next: (
        Self,
        Result<bool, Vec<T>>,
        Option<Last>,
    ))
        requires
            self.wf(),
            k < self.terms().rights.len(),
            right == self.terms().rights[k as int],
        ensures
            k < self.terms().rights.len(),
            right == self.terms().rights[k as int],
            next.0.wf(),
            next.0.terms() == self.terms(),
            call_ensures(
                Progress::<T>::deliver,
                (self.progress(), k, slice),
                (next.0.progress(), next.1),
            ),
            next.1 is Err ==> next.0 == self,
            next.2 is Some <==> next.1 == Ok::<bool, Vec<T>>(true),
    {
        let Ledger { progress, seal, terms } = self;
        let (progress, outcome) = progress.deliver(k, slice);
        let last = match &outcome {
            Ok(true) => Some(Last { complete: Ghost(true) }),
            _ => None,
        };
        (Ledger { progress, seal, terms }, outcome, last)
    }

    /// Takes the slots out if all of them are filled, which uses up the claim. Otherwise the claim
    /// is given back.
    pub(crate) fn poll(self, claim: Right) -> (next: (Self, Result<Vec<Option<Vec<T>>>, Right>))
        requires
            self.wf(),
            claim == self.terms().claim,
        ensures
            claim == self.terms().claim,
            next.0.wf(),
            next.0.terms() == self.terms(),
            match next.1 {
                Ok(slots) => call_ensures(
                    Progress::<T>::poll,
                    (self.progress(),),
                    (next.0.progress(), Poll::Ready(slots)),
                ),
                Err(right) => {
                    &&& right == claim
                    &&& next.0 == self
                    &&& call_ensures(
                        Progress::<T>::poll,
                        (self.progress(),),
                        (next.0.progress(), Poll::Pending),
                    )
                },
            },
    {
        let Ledger { progress, seal, terms } = self;
        let (progress, poll) = progress.poll();
        let next = Ledger { progress, seal, terms };
        match poll {
            Poll::Ready(slots) => (next, Ok(slots)),
            Poll::Pending => (next, Err(claim)),
        }
    }

    /// Takes the slots away, with whatever they hold. That uses up the claim.
    pub(crate) fn release(self, claim: Right) -> (next: (Self, Vec<Option<Vec<T>>>))
        requires
            self.wf(),
            claim == self.terms().claim,
        ensures
            claim == self.terms().claim,
            next.0.wf(),
            next.0.terms() == self.terms(),
            call_ensures(
                Progress::<T>::release,
                (self.progress(),),
                (next.0.progress(), next.1),
            ),
    {
        let Ledger { progress, seal, terms } = self;
        let (progress, slots) = progress.release();
        (Ledger { progress, seal, terms }, slots)
    }
}

} // verus!
