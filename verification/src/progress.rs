//! How far the building of one vector has come.
//!
//! Each task fills one slot with the slice that it has built. When no slot is missing any more,
//! the slices can be taken out and put together.

use std::task::Poll;
use vstd::prelude::*;

verus! {

/// What a slot holds: the elements of a slice, once its task is done.
pub open spec fn slot_view<T>(slot: Option<Vec<T>>) -> Option<Seq<T>> {
    match slot {
        Some(slice) => Some(slice@),
        None => None,
    }
}

/// What a list of slots holds.
pub open spec fn slots_view<T>(slots: Seq<Option<Vec<T>>>) -> Seq<Option<Seq<T>>> {
    slots.map_values(|slot: Option<Vec<T>>| slot_view(slot))
}

/// How many slots are still empty.
pub open spec fn missing<T>(slots: Seq<Option<Seq<T>>>) -> nat
    decreases slots.len(),
{
    if slots.len() == 0 {
        0
    } else {
        missing(slots.drop_last()) + if slots.last() is None {
            1nat
        } else {
            0
        }
    }
}

/// The slices of all slots, one after the other.
pub open spec fn joined<T>(slots: Seq<Option<Seq<T>>>) -> Seq<T> {
    slots.map_values(|slot: Option<Seq<T>>| slot->0).flatten()
}

/// Filling an empty slot leaves one slot fewer missing.
pub proof fn lemma_missing_fill<T>(slots: Seq<Option<Seq<T>>>, k: int, slice: Seq<T>)
    requires
        0 <= k < slots.len(),
        slots[k] is None,
    ensures
        missing(slots.update(k, Some(slice))) == missing(slots) - 1,
    decreases slots.len(),
{
    let filled = slots.update(k, Some(slice));
    if k == slots.len() - 1 {
        assert(filled.drop_last() =~= slots.drop_last());
    } else {
        assert(filled.drop_last() =~= slots.drop_last().update(k, Some(slice)));
        lemma_missing_fill(slots.drop_last(), k, slice);
    }
}

/// No slot is missing exactly if all of them are filled.
pub proof fn lemma_missing_none<T>(slots: Seq<Option<Seq<T>>>)
    ensures
        missing(slots) == 0 <==> forall|k: int| 0 <= k < slots.len() ==> slots[k] is Some,
        missing(slots) <= slots.len(),
    decreases slots.len(),
{
    if slots.len() > 0 {
        let front = slots.drop_last();
        lemma_missing_none(front);
        if missing(slots) == 0 {
            assert forall|k: int| 0 <= k < slots.len() implies slots[k] is Some by {
                if k < front.len() {
                    assert(front[k] is Some);
                }
            }
        }
        if forall|k: int| 0 <= k < slots.len() ==> slots[k] is Some {
            assert forall|k: int| 0 <= k < front.len() implies front[k] is Some by {
                assert(slots[k] is Some);
            }
            assert(slots[slots.len() - 1] is Some);
        }
    }
}

/// Of empty slots, all are missing.
pub proof fn lemma_missing_all<T>(slots: Seq<Option<Seq<T>>>)
    requires
        forall|k: int| 0 <= k < slots.len() ==> slots[k] is None,
    ensures
        missing(slots) == slots.len(),
    decreases slots.len(),
{
    if slots.len() > 0 {
        let front = slots.drop_last();
        assert forall|k: int| 0 <= k < front.len() implies front[k] is None by {
            assert(slots[k] is None);
        }
        assert(slots[slots.len() - 1] is None);
        lemma_missing_all(front);
    }
}

/// The slots of a vector that is being built, and the number of tasks that are not done yet.
///
/// Once the vector has been taken out, or nobody waits for it any more, the slots are released
/// and there is nothing left to build.
///
/// Every step takes the progress as it is and gives back the progress as it is then, with
/// whatever is left over. Nothing that callers have built is dropped on the way.
pub struct Progress<T> {
    outstanding_tasks: usize,
    slots: Vec<Option<Vec<T>>>,
    live: bool,
}

impl<T> View for Progress<T> {
    type V = Option<Seq<Option<Seq<T>>>>;

    /// The slots, or nothing once they have been released. The count of outstanding tasks is the
    /// number of empty slots in both cases.
    closed spec fn view(&self) -> Self::V {
        if self.live {
            Some(slots_view(self.slots@))
        } else {
            None
        }
    }
}

impl<T> Progress<T> {
    /// The count of outstanding tasks is the number of empty slots, and there are no slots once
    /// they have been released.
    pub closed spec fn wf(&self) -> bool {
        &&& self.outstanding_tasks == missing(slots_view(self.slots@))
        &&& !self.live ==> self.slots@.len() == 0
    }

    /// Whether slot `k` is there to be filled.
    pub open spec fn awaits(&self, k: int) -> bool {
        self@ matches Some(slots) && 0 <= k < slots.len() && slots[k] is None
    }

    /// The start of a build by `tasks` tasks: all slots are empty, and all tasks outstanding.
    pub fn new(tasks: usize) -> (progress: Self)
        ensures
            progress.wf(),
            progress@ == Some(Seq::new(tasks as nat, |k: int| None::<Seq<T>>)),
            missing(progress@->0) == tasks,
    {
        let mut slots: Vec<Option<Vec<T>>> = Vec::with_capacity(tasks);
        let mut k: usize = 0;
        while k < tasks
            invariant
                k <= tasks,
                slots@.len() == k,
                forall|j: int| 0 <= j < k ==> slots@[j] is None,
            decreases tasks - k,
        {
            slots.push(None);
            k = k + 1;
        }
        let progress = Progress { outstanding_tasks: tasks, slots, live: true };
        proof {
            lemma_missing_all(slots_view(slots@));
            assert(slots_view(slots@) =~= Seq::new(tasks as nat, |k: int| None::<Seq<T>>));
        }
        progress
    }

    /// Whether the slots still exist.
    pub fn is_live(&self) -> (live: bool)
        ensures
            live == (self@ is Some),
    {
        self.live
    }

    /// Whether the vector is still wanted: the slots exist, and of the `holders` of what a build
    /// shares, one is not among the tasks.
    pub fn is_wanted(&self, holders: usize) -> (wanted: bool)
        ensures
            wanted == (self@ is Some && holders > 1),
    {
        self.is_live() && holders > 1
    }

    /// The number of tasks that are not done yet. There is none once the slots are released.
    pub fn outstanding_tasks(&self) -> (outstanding: usize)
        requires
            self.wf(),
        ensures
            outstanding == match self@ {
                Some(slots) => missing(slots),
                None => 0,
            },
    {
        self.outstanding_tasks
    }

    /// Puts the slice of a task that is done into its slot. Then the result tells whether that
    /// was the last slice that was missing. A slice that is not awaited is given back.
    pub fn deliver(self, k: usize, slice: Vec<T>) -> (next: (Self, Result<bool, Vec<T>>))
        requires
            self.wf(),
        ensures
            next.0.wf(),
            self.awaits(k as int) ==> {
                &&& next.0@ == Some(self@->0.update(k as int, Some(slice@)))
                &&& missing(next.0@->0) == missing(self@->0) - 1
                &&& next.1 == Ok::<bool, Vec<T>>(missing(self@->0) == 1)
            },
            !self.awaits(k as int) ==> next.0 == self && next.1 == Err::<bool, Vec<T>>(slice),
    {
        if self.live && k < self.slots.len() && self.slots[k].is_none() {
            proof {
                lemma_missing_fill(self@->0, k as int, slice@);
                assert(slots_view(self.slots@.update(k as int, Some(slice))) =~= self@->0.update(
                    k as int,
                    Some(slice@),
                ));
            }
            let Progress { outstanding_tasks, mut slots, live } = self;
            slots.set(k, Some(slice));
            let progress = Progress { outstanding_tasks: outstanding_tasks - 1, slots, live };
            (progress, Ok(outstanding_tasks == 1))
        } else {
            (self, Err(slice))
        }
    }

    /// Takes the slots out if all of them are filled.
    pub fn poll(self) -> (next: (Self, Poll<Vec<Option<Vec<T>>>>))
        requires
            self.wf(),
        ensures
            next.0.wf(),
            next.1 is Ready <==> self@ is Some && missing(self@->0) == 0,
            match next.1 {
                Poll::Ready(slots) => slots_view(slots@) == self@->0 && next.0@ is None,
                Poll::Pending => next.0 == self,
            },
    {
        if self.live && self.outstanding_tasks == 0 {
            let (progress, slots) = self.release();
            (progress, Poll::Ready(slots))
        } else {
            (self, Poll::Pending)
        }
    }

    /// Releases the slots, with whatever they hold.
    pub fn release(self) -> (next: (Self, Vec<Option<Vec<T>>>))
        requires
            self.wf(),
        ensures
            next.0.wf(),
            next.0@ is None,
            slots_view(next.1@) == match self@ {
                Some(slots) => slots,
                None => Seq::empty(),
            },
    {
        (Progress { outstanding_tasks: 0, slots: Vec::new(), live: false }, self.slots)
    }
}

/// Joining one slot more appends its slice.
pub proof fn lemma_joined_step<T>(slots: Seq<Option<Seq<T>>>, k: int)
    requires
        0 <= k < slots.len(),
    ensures
        joined(slots.take(k + 1)) == joined(slots.take(k)) + slots[k]->0,
{
    let inner = |slot: Option<Seq<T>>| slot->0;
    assert(slots.take(k + 1).map_values(inner) =~= slots.take(k).map_values(inner).push(
        slots[k]->0,
    ));
    slots.take(k).map_values(inner).lemma_flatten_push(slots[k]->0);
}

/// Puts the slices of filled slots together in order. `len` is the number of elements in them.
pub fn join<T>(slots: Vec<Option<Vec<T>>>, len: usize) -> (vec: Vec<T>)
    requires
        missing(slots_view(slots@)) == 0,
        joined(slots_view(slots@)).len() == len,
    ensures
        vec@ == joined(slots_view(slots@)),
{
    let ghost all = slots_view(slots@);
    let mut vec: Vec<T> = Vec::with_capacity(len);
    let mut rest: Vec<Option<Vec<T>>> = slots;
    let mut k: usize = 0;
    proof {
        lemma_missing_none(all);
        assert(all.take(0) =~= Seq::empty());
    }
    while k < rest.len()
        invariant
            k <= rest.len(),
            rest@.len() == all.len(),
            forall|j: int| 0 <= j < all.len() ==> all[j] is Some,
            forall|j: int| k <= j < rest@.len() ==> slot_view(rest@[j]) == all[j],
            vec@ == joined(all.take(k as int)),
        decreases rest.len() - k,
    {
        assert(slot_view(rest@[k as int]) == all[k as int]);
        let slot = rest[k].take();
        if let Some(mut slice) = slot {
            vec.append(&mut slice);
        }
        proof {
            lemma_joined_step(all, k as int);
        }
        k = k + 1;
    }
    proof {
        assert(all.take(all.len() as int) =~= all);
    }
    vec
}

/// Law: a progress tells what it is. It is live as long as it has slots, it counts those that are
/// missing, and releasing gives them all away.
pub proof fn law_progress_tells_what_it_is<T>(
    progress: Progress<T>,
    live: bool,
    outstanding: usize,
    next: (Progress<T>, Vec<Option<Vec<T>>>),
)
    requires
        call_ensures(Progress::<T>::is_live, (&progress,), live),
        call_ensures(Progress::<T>::outstanding_tasks, (&progress,), outstanding),
        call_ensures(Progress::<T>::release, (progress,), next),
    ensures
        live <==> progress@ is Some,
        live ==> outstanding == missing(progress@->0) && slots_view(next.1@) == progress@->0,
        !live ==> outstanding == 0 && next.1@.len() == 0,
        next.0@ is None,
{
    if !live {
        assert(slots_view(next.1@).len() == 0);
    }
}

} // verus!
