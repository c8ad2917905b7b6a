//! What the tasks of a build share with its result.
//!
//! The ledger of a build changes hands behind a lock, so no single call can say what it is before
//! and after for everybody. What a call does say is which [`Ledger`] it took out of the lock,
//! which step it made with it, and that it put the outcome of that step back. It can make no other
//! step: each of them takes a [`Right`], and uses it up. The [laws](crate::laws) follow such steps
//! through a whole build.

use crate::bell::Bell;
use crate::ledger::{Last, Ledger};
use crate::plan::Plan;
use crate::progress::{missing, Progress};
use crate::right::{Right, Terms};
use atomic_waker::AtomicWaker;
use std::sync::Arc;
use std::task::{Poll, Waker};
use vstd::prelude::*;
use vstd::rwlock::{RwLock, RwLockPredicate, WriteHandle};

verus! {

/// The ledger of one build, and the bell for whoever waits for its result.
///
/// The lock is only ever held for as long as it takes to look at the ledger or to move slices in
/// or out. While it is held, no element is built, joined to others or dropped.
///
/// Tasks can look at the ledger and deliver to it. Only the [`Claim`] to the vector can take the
/// slots away. Both have a share in the bell, so the number of shares tells whether there still is
/// a claim.
#[verifier::reject_recursive_types(T)]
pub struct Shared<T> {
    ledger: RwLock<Ledger<T>, Plan<T>>,
    bell: Bell,
    origin: usize,
}

/// The claim to the vector of a build. There is one for each build, and it is used up when the
/// slots are taken away.
#[verifier::reject_recursive_types(T)]
pub struct Claim<T> {
    shared: Arc<Shared<T>>,
    bell: Bell,
    right: Right,
}

impl<T> Shared<T> {
    /// The lock that holds the ledger.
    pub closed spec fn lock(&self) -> RwLock<Ledger<T>, Plan<T>> {
        self.ledger
    }

    /// The cell that holds the waker.
    pub closed spec fn cell(&self) -> AtomicWaker {
        self.bell.cell()
    }

    /// A number that stands for the build: where the cell of its bell is.
    pub closed spec fn origin(&self) -> usize {
        self.origin
    }

    /// A number that stands for the build: where the cell of its bell is.
    pub(crate) fn origin_number(&self) -> (origin: usize)
        ensures
            origin == self.origin(),
    {
        self.origin
    }

    /// The plan that the ledger keeps to.
    pub open spec fn plan(&self) -> Plan<T> {
        self.lock().pred()
    }

    /// The right of task `k`.
    pub open spec fn right(&self, k: int) -> Right {
        self.plan().terms.rights[k]
    }

    /// Whether the origin is where the cell was found.
    pub closed spec fn located(&self) -> bool {
        self.bell.located(self.origin)
    }

    /// Whether the cell was found to be shared by `holders`.
    pub closed spec fn counted(&self, holders: usize) -> bool {
        self.bell.counted(holders)
    }

    /// Whether the lock was made around the ledger of a build by `tasks` tasks of which none is
    /// done: every slot is empty, and all tasks are outstanding. The cell is new and has no waker.
    pub open spec fn begun(&self, tasks: nat) -> bool {
        &&& call_ensures(AtomicWaker::new, (), self.cell())
        &&& self.located()
        &&& exists|first: Ledger<T>|
            {
                &&& #[trigger] call_ensures(
                    RwLock::<Ledger<T>, Plan<T>>::new,
                    (first, Ghost(self.plan())),
                    self.lock(),
                )
                &&& self.plan().inv(first)
                &&& first@ == Some(Seq::new(tasks, |k: int| None::<Seq<T>>))
                &&& missing(first@->0) == tasks
            }
    }

    /// Whether `before` was taken out of the lock, and `after` was put back in its place.
    pub open spec fn passes(&self, before: Ledger<T>, after: Ledger<T>) -> bool {
        &&& self.plan().inv(before)
        &&& self.plan().inv(after)
        &&& exists|handle: WriteHandle<'_, Ledger<T>, Plan<T>>|
            {
                &&& #[trigger] call_ensures(
                    RwLock::<Ledger<T>, Plan<T>>::acquire_write,
                    (&self.lock(),),
                    (before, handle),
                )
                &&& call_ensures(
                    WriteHandle::<'_, Ledger<T>, Plan<T>>::release_write,
                    (handle, after),
                    (),
                )
            }
    }

    /// Whether `seen` was in the lock and stays there, the cell was found to be shared by `holders`,
    /// and the vector was taken to be wanted or not.
    pub open spec fn looks(&self, seen: Ledger<T>, holders: usize, wanted: bool) -> bool {
        &&& self.passes(seen, seen)
        &&& self.counted(holders)
        &&& call_ensures(Progress::<T>::is_wanted, (&seen.progress(), holders), wanted)
    }

    /// Whether the outcome of a delivery was passed on after the delivery.
    pub closed spec fn tells(
        &self,
        before: Ledger<T>,
        k: usize,
        slice: Vec<T>,
        after: Ledger<T>,
        outcome: Result<bool, Vec<T>>,
    ) -> bool {
        exists|last: Option<Last>| #[trigger]
            call_ensures(
                Shared::<T>::notify,
                (self, last, &outcome, Ghost((before, k, slice, after))),
                (),
            )
    }

    /// Whether the slice of task `k` was delivered to `before` by right of that task, which gave
    /// `after`. If that was the last slice, whoever waits for the vector was woken after that.
    pub open spec fn delivers(
        &self,
        before: Ledger<T>,
        right: Right,
        k: usize,
        slice: Vec<T>,
        after: Ledger<T>,
        outcome: Result<bool, Vec<T>>,
    ) -> bool {
        &&& self.passes(before, after)
        &&& stores(before, right, k, slice, after, outcome)
        &&& call_ensures(
            Progress::<T>::deliver,
            (before.progress(), k, slice),
            (after.progress(), outcome),
        )
        &&& outcome is Err ==> after == before
        &&& self.tells(before, k, slice, after, outcome)
        &&& outcome == Ok::<bool, Vec<T>>(true) ==> call_ensures(
            AtomicWaker::wake,
            (&self.cell(),),
            (),
        )
    }

    /// Whether `before` was asked for its slots by right of the claim, which gave `after`.
    pub open spec fn polls(
        &self,
        before: Ledger<T>,
        after: Ledger<T>,
        poll: Poll<Vec<Option<Vec<T>>>>,
    ) -> bool {
        &&& self.passes(before, after)
        &&& empties(before, self.plan().terms.claim, after, poll)
        &&& call_ensures(Progress::<T>::poll, (before.progress(),), (after.progress(), poll))
        &&& poll is Pending ==> after == before
    }

    /// Whether the slots of `before` were released by right of the claim, which gave `after`.
    pub open spec fn releases(
        &self,
        before: Ledger<T>,
        after: Ledger<T>,
        slots: Vec<Option<Vec<T>>>,
    ) -> bool {
        &&& self.passes(before, after)
        &&& gives_up(before, self.plan().terms.claim, after, slots)
        &&& call_ensures(Progress::<T>::release, (before.progress(),), (after.progress(), slots))
    }

    /// The start of a build of `len` elements by `tasks` tasks, of which `built` tells what they
    /// may be. With it come the claim to the vector and the rights of the tasks.
    pub(crate) fn begin(
        tasks: usize,
        Ghost(len): Ghost<nat>,
        Ghost(built): Ghost<spec_fn(int, T) -> bool>,
    ) -> (parts: (Arc<Shared<T>>, Claim<T>, Vec<Right>))
        ensures
            parts.0.plan().len == len,
            parts.0.plan().tasks == tasks,
            parts.0.plan().built == built,
            parts.0.plan().terms.rights.len() == tasks,
            parts.0.begun(tasks as nat),
            parts.1.wf(),
            parts.1.shared() == *parts.0,
            parts.2@ == parts.0.plan().terms.rights,
    {
        let mut rights: Vec<Right> = Vec::with_capacity(tasks);
        let mut k: usize = 0;
        while k < tasks
            invariant
                k <= tasks,
                rights@.len() == k,
            decreases tasks - k,
        {
            rights.push(Right::new());
            k = k + 1;
        }
        let seal = Right::new();
        let right = Right::new();
        let ghost terms = Terms { seal, rights: rights@, claim: right };
        let ghost plan = Plan { len, tasks: tasks as nat, built, terms };
        let first = Ledger::new(tasks, seal, Ghost(terms));
        let ghost start = first;
        let ledger = RwLock::new(first, Ghost(plan));
        let (kept, bell) = Bell::pair();
        let origin: usize = kept.place();
        let shared = Arc::new(Shared { ledger, bell: kept, origin });
        assert(call_ensures(
            RwLock::<Ledger<T>, Plan<T>>::new,
            (start, Ghost(shared.plan())),
            shared.lock(),
        ));
        let claim = Claim { shared: shared.clone(), bell, right };
        (shared, claim, rights)
    }

    /// Whether somebody may still ask for the vector: there is a claim to it, and the slots exist.
    /// Other threads may change that at any time.
    pub(crate) fn is_live(&self) -> (live: bool)
        ensures
            exists|seen: Ledger<T>, holders: usize| #[trigger] self.looks(seen, holders, live),
    {
        let holders: usize = self.bell.holders();
        let (ledger, handle) = self.ledger.acquire_write();
        let ghost seen = ledger;
        let live = ledger.is_wanted(holders);
        handle.release_write(ledger);
        assert(self.passes(seen, seen));
        assert(self.looks(seen, holders, live));
        live
    }

    /// Puts the slice of task `k` into its slot, and wakes whoever waits for the vector if that
    /// was the last slice. A slice that nobody waits for is dropped. The right of the task is used
    /// up.
    pub(crate) fn deliver(&self, right: Right, k: usize, slice: Vec<T>)
        requires
            self.plan().owes(k as int, slice@),
            k < self.plan().terms.rights.len(),
            right == self.right(k as int),
        ensures
            exists|before: Ledger<T>, after: Ledger<T>, outcome: Result<bool, Vec<T>>| #[trigger]
                self.delivers(before, right, k, slice, after, outcome),
    {
        let (ledger, handle) = self.ledger.acquire_write();
        let ghost before = ledger;
        let (ledger, outcome, last) = ledger.deliver(right, k, slice);
        let ghost after = ledger;
        handle.release_write(ledger);
        assert(self.passes(before, after));
        assert(stores(before, right, k, slice, after, outcome));
        let ghost told = last;
        self.notify(last, &outcome, Ghost((before, k, slice, after)));
        assert(call_ensures(
            Shared::<T>::notify,
            (self, told, &outcome, Ghost((before, k, slice, after))),
            (),
        ));
        assert(self.delivers(before, right, k, slice, after, outcome));
    }

    /// Wakes whoever waits for the vector if a delivery was the last one. The delivery has to be
    /// over by then: whoever is woken looks at the ledger, and is not woken again.
    pub(crate) fn notify(
        &self,
        last: Option<Last>,
        outcome: &Result<bool, Vec<T>>,
        Ghost(step): Ghost<(Ledger<T>, usize, Vec<T>, Ledger<T>)>,
    )
        requires
            self.passes(step.0, step.3),
            call_ensures(
                Progress::<T>::deliver,
                (step.0.progress(), step.1, step.2),
                (step.3.progress(), *outcome),
            ),
            last is Some <==> *outcome == Ok::<bool, Vec<T>>(true),
        ensures
            self.passes(step.0, step.3),
            *outcome == Ok::<bool, Vec<T>>(true) ==> call_ensures(
                AtomicWaker::wake,
                (&self.cell(),),
                (),
            ),
    {
        if let Some(last) = last {
            self.bell.ring(last);
        }
    }
}

/// Whether a slice was put into slot `k` of `before` by that right, which gave `after`.
pub closed spec fn stores<T>(
    before: Ledger<T>,
    right: Right,
    k: usize,
    slice: Vec<T>,
    after: Ledger<T>,
    outcome: Result<bool, Vec<T>>,
) -> bool {
    exists|last: Option<Last>| #[trigger]
        call_ensures(Ledger::<T>::deliver, (before, right, k, slice), (after, outcome, last))
}

/// Whether `before` was asked for its slots by that right, which gave `after`.
pub closed spec fn empties<T>(
    before: Ledger<T>,
    claim: Right,
    after: Ledger<T>,
    poll: Poll<Vec<Option<Vec<T>>>>,
) -> bool {
    let taken = match poll {
        Poll::Ready(slots) => Ok(slots),
        Poll::Pending => Err(claim),
    };
    call_ensures(Ledger::<T>::poll, (before, claim), (after, taken))
}

/// Whether the slots of `before` were released by that right, which gave `after`.
pub closed spec fn gives_up<T>(
    before: Ledger<T>,
    claim: Right,
    after: Ledger<T>,
    slots: Vec<Option<Vec<T>>>,
) -> bool {
    call_ensures(Ledger::<T>::release, (before, claim), (after, slots))
}

impl<T> Claim<T> {
    /// What the claim shares with the tasks of the build.
    pub closed spec fn shared(&self) -> Shared<T> {
        *self.shared
    }

    /// The claim has a share in the bell of its build, and has the right to its slots.
    pub closed spec fn wf(&self) -> bool {
        &&& self.bell.cell() == self.shared().cell()
        &&& self.right == self.shared().plan().terms.claim
    }

    /// Whether the claim was used to ask `before` for its slots, which gave `after`, and `waker`
    /// had been left before that.
    pub closed spec fn asks(
        self,
        waker: &Waker,
        before: Ledger<T>,
        after: Ledger<T>,
        poll: Poll<Vec<Option<Vec<T>>>>,
    ) -> bool {
        let taken = match poll {
            Poll::Ready(slots) => Ok(slots),
            Poll::Pending => Err(self),
        };
        call_ensures(Claim::<T>::take, (self, waker), (taken, Ghost((before, after))))
    }

    /// Takes the slots out if none is missing, after leaving a waker for the case that one is.
    /// Then the claim comes back.
    pub(crate) fn poll(self, waker: &Waker) -> (taken: Result<Vec<Option<Vec<T>>>, Self>)
        requires
            self.wf(),
        ensures
            match taken {
                Ok(slots) => exists|before: Ledger<T>, after: Ledger<T>| #[trigger]
                    self.asks(waker, before, after, Poll::Ready(slots)),
                Err(claim) => claim == self && exists|before: Ledger<T>, after: Ledger<T>|
                    #[trigger] self.asks(waker, before, after, Poll::Pending),
            },
    {
        let ghost claim = self;
        self.bell.register(waker);
        let (taken, Ghost(pass)) = self.take(waker);
        proof {
            if taken is Ok {
                assert(claim.asks(waker, pass.0, pass.1, Poll::Ready(taken->Ok_0)));
            } else {
                assert(claim.asks(waker, pass.0, pass.1, Poll::Pending));
            }
        }
        taken
    }

    /// Takes the slots out if none is missing. Otherwise the claim comes back. The waker has to be
    /// there by then: a task that is done before the ledger is looked at is seen there, and one
    /// that is done after that finds the waker.
    pub(crate) fn take(self, waker: &Waker) -> (taken: (
        Result<Vec<Option<Vec<T>>>, Self>,
        Ghost<(Ledger<T>, Ledger<T>)>,
    ))
        requires
            self.wf(),
            call_ensures(AtomicWaker::register, (&self.shared().cell(), waker), ()),
        ensures
            call_ensures(AtomicWaker::register, (&self.shared().cell(), waker), ()),
            match taken.0 {
                Ok(slots) => self.shared().polls(taken.1@.0, taken.1@.1, Poll::Ready(slots)),
                Err(claim) => claim == self && self.shared().polls(
                    taken.1@.0,
                    taken.1@.1,
                    Poll::Pending,
                ),
            },
    {
        let Claim { shared, bell, right } = self;
        let (ledger, handle) = shared.ledger.acquire_write();
        let ghost before = ledger;
        let (ledger, taken) = ledger.poll(right);
        let ghost after = ledger;
        handle.release_write(ledger);
        assert(shared.passes(before, after));
        match taken {
            Ok(slots) => {
                assert(empties(before, right, after, Poll::Ready(slots)));
                (Ok(slots), Ghost((before, after)))
            },
            Err(returned) => {
                assert(empties(before, right, after, Poll::Pending));
                (Err(Claim { shared, bell, right: returned }), Ghost((before, after)))
            },
        }
    }

    /// Gives up the vector. What the slots hold is dropped.
    pub(crate) fn abandon(self)
        requires
            self.wf(),
        ensures
            exists|before: Ledger<T>, after: Ledger<T>, slots: Vec<Option<Vec<T>>>| #[trigger]
                self.shared().releases(before, after, slots),
    {
        let Claim { shared, bell: _, right } = self;
        let (ledger, handle) = shared.ledger.acquire_write();
        let ghost before = ledger;
        let (ledger, slots) = ledger.release(right);
        let ghost after = ledger;
        handle.release_write(ledger);
        assert(shared.passes(before, after));
        assert(self.shared().releases(before, after, slots));
    }
}

/// Law: whoever asks for the vector has left a waker first.
pub proof fn law_waker_comes_first<T>(
    claim: Claim<T>,
    waker: &Waker,
    before: Ledger<T>,
    after: Ledger<T>,
    poll: Poll<Vec<Option<Vec<T>>>>,
)
    requires
        claim.asks(waker, before, after, poll),
    ensures
        call_ensures(AtomicWaker::register, (&claim.shared().cell(), waker), ()),
        claim.shared().polls(before, after, poll),
{
}

/// Law: whoever is woken finds the delivery in the lock. The outcome of a delivery is only passed
/// on when its ledger has been put back.
pub proof fn law_delivery_comes_first<T>(
    shared: Shared<T>,
    before: Ledger<T>,
    k: usize,
    slice: Vec<T>,
    after: Ledger<T>,
    outcome: Result<bool, Vec<T>>,
)
    requires
        shared.tells(before, k, slice, after, outcome),
    ensures
        shared.passes(before, after),
        outcome == Ok::<bool, Vec<T>>(true) ==> call_ensures(
            AtomicWaker::wake,
            (&shared.cell(),),
            (),
        ),
{
}

/// Law: a slot is filled by the right of its task, and by no other.
pub proof fn law_slots_are_filled_by_right<T>(
    before: Ledger<T>,
    right: Right,
    k: usize,
    slice: Vec<T>,
    after: Ledger<T>,
    outcome: Result<bool, Vec<T>>,
)
    requires
        stores(before, right, k, slice, after, outcome),
    ensures
        k < before.terms().rights.len(),
        right == before.terms().rights[k as int],
        after.terms() == before.terms(),
{
}

/// Law: the slots are taken away by the claim, and by no other right.
pub proof fn law_slots_are_taken_by_the_claim<T>(
    before: Ledger<T>,
    claim: Right,
    after: Ledger<T>,
    poll: Poll<Vec<Option<Vec<T>>>>,
    slots: Vec<Option<Vec<T>>>,
)
    requires
        empties(before, claim, after, poll) || gives_up(before, claim, after, slots),
    ensures
        claim == before.terms().claim,
        after.terms() == before.terms(),
{
}

} // verus!
