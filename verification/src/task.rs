//! The tasks that build a vector.

use crate::outside::{feed, same_allocation};
use crate::partition::{bound, lemma_bounds, slice_end, slice_start};
use crate::permit::Permit;
use crate::plan::Plan;
use crate::recorded::{Call, Recorded};
use crate::right::Right;
use crate::ledger::Ledger;
use crate::shared::Shared;
use std::sync::Arc;
use std::task::Poll;
use vstd::prelude::*;

verus! {

/// Why a task did not run.
#[derive(Debug, Clone, Copy, PartialEq, Eq)]
pub enum SliceTaskError {
    /// The vector that the task is a part of is gone: its result has been given up or dropped.
    Deallocated,
}

/// A task that builds a slice of the final vector.
///
/// Each `SliceTask` is responsible for computing and storing elements
/// for a specific range of indices. Multiple tasks can run concurrently
/// to build different parts of the vector in parallel.
#[verifier::reject_recursive_types(T)]
#[verifier::reject_recursive_types(B)]
#[must_use]
pub struct SliceTask<T, B> {
    /// The function that builds the elements.
    build: Recorded<T, B>,
    /// The number of the task among those of its build.
    index: usize,
    start: usize,
    past_end: usize,
    shared: Arc<Shared<T>>,
    /// The right to fill the slot of the task, until it is done.
    right: Option<Right>,
}

impl<T, B> SliceTask<T, B> {
    /// The plan of the build that the task belongs to.
    pub open spec fn plan(&self) -> Plan<T> {
        self.shared().plan()
    }

    /// What the tasks of one build share.
    pub closed spec fn shared(&self) -> Shared<T> {
        *self.shared
    }

    /// The number of the task among those of its build.
    pub closed spec fn index(&self) -> int {
        self.index as int
    }

    /// The function that builds the elements.
    pub closed spec fn build_fn(&self) -> B {
        self.build.build_fn()
    }

    /// The calls of the function that have been made, in order.
    pub closed spec fn calls(&self) -> Seq<Call<T, B>> {
        self.build.calls()
    }

    /// The right to fill the slot of the task, until it is done.
    pub closed spec fn right(&self) -> Option<Right> {
        self.right
    }

    /// Whether the task is done.
    pub open spec fn completed(&self) -> bool {
        self.right() is None
    }

    /// The first index of the task.
    pub closed spec fn first(&self) -> int {
        self.start as int
    }

    /// The index past the last one of the task.
    pub closed spec fn end(&self) -> int {
        self.past_end as int
    }

    /// The first index of the task.
    pub fn start(&self) -> (start: usize)
        ensures
            start == self.first(),
    {
        self.start
    }

    /// The index past the last one of the task.
    pub fn past_end(&self) -> (past_end: usize)
        ensures
            past_end == self.end(),
    {
        self.past_end
    }

    /// Whether two tasks are the same slice: they have one range, and as `same_build` tells, they
    /// belong to one build.
    pub fn same_slice(&self, other: &Self, same_build: bool) -> (same: bool)
        ensures
            same == (self.first() == other.first() && self.end() == other.end() && same_build),
    {
        self.start == other.start && self.past_end == other.past_end && same_build
    }

    /// What a hasher is fed for the task: its range, and where its build comes from.
    pub open spec fn hash_words(&self) -> Seq<usize> {
        seq![self.first() as usize, self.end() as usize, self.shared().origin()]
    }

    /// What a hasher is fed for the task.
    pub fn hash_input(&self) -> (words: [usize; 3])
        ensures
            words@ == self.hash_words(),
    {
        [self.start, self.past_end, self.shared.origin_number()]
    }

    /// Whether the vector of the task was found to be wanted.
    pub open spec fn found_live(&self) -> bool {
        exists|seen: Ledger<T>, holders: usize| #[trigger]
            self.shared().looks(seen, holders, true)
    }

    /// Whether the vector that the task is a part of is still wanted: it has not been handed out,
    /// and its result has neither been given up nor dropped. Other threads may change that at any
    /// time.
    pub fn is_live(&self) -> (live: bool)
        ensures
            exists|seen: Ledger<T>, holders: usize| #[trigger]
                self.shared().looks(seen, holders, live),
    {
        assert(self.shared() == *self.shared);
        self.shared.is_live()
    }

    /// Whether the task is done. Such a task cannot run again.
    pub fn is_complete(&self) -> (complete: bool)
        ensures
            complete == self.completed(),
    {
        self.right.is_none()
    }
}

impl<T, B> SliceTask<T, B> where B: FnMut(usize) -> T {
    /// The task has its place in the plan and the right to its slot, and what its function returns
    /// may become an element.
    pub closed spec fn wf(&self) -> bool {
        &&& self.plan().wf()
        &&& self.index < self.plan().tasks
        &&& self.start == self.plan().start(self.index as int)
        &&& self.past_end == self.plan().past_end(self.index as int)
        &&& self.right matches Some(right) ==> right == self.shared().right(self.index as int)
        &&& forall|i: usize, x: T|
            self.start <= i < self.past_end && #[trigger] call_ensures(
                self.build_fn(),
                (i,),
                x,
            ) ==> (self.plan().built)(i as int, x)
    }

    /// Whether the function can be called on all indices of the task.
    pub open spec fn callable(&self) -> bool {
        forall|i: usize|
            self.first() <= i < self.end() ==> #[trigger] call_requires(self.build_fn(), (i,))
    }

    /// Whether `slice` can be what the task builds: for each of its indices, something that the
    /// function returns there. A function with state is taken for what it may return in any state
    /// that its calls lead to.
    pub open spec fn can_build(&self, slice: Seq<T>) -> bool {
        &&& slice.len() == self.end() - self.first()
        &&& forall|j: int|
            0 <= j < slice.len() ==> call_ensures(
                self.build_fn(),
                ((self.first() + j) as usize,),
                #[trigger] slice[j],
            )
    }

    /// A task that has just been planned: number `index` among `tasks` for `len` elements.
    pub(crate) fn new(
        build: B,
        shared: Arc<Shared<T>>,
        right: Right,
        len: usize,
        tasks: usize,
        index: usize,
    ) -> (task: Self)
        requires
            shared.plan().wf(),
            shared.plan().len == len,
            shared.plan().tasks == tasks,
            index < tasks,
            right == shared.right(index as int),
            forall|i: usize, x: T|
                i < len && #[trigger] call_ensures(build, (i,), x) ==> (shared.plan().built)(
                    i as int,
                    x,
                ),
        ensures
            task.wf(),
            !task.completed(),
            task.build_fn() == build,
            task.calls() == Seq::<Call<T, B>>::empty(),
            task.shared() == *shared,
            task.plan() == shared.plan(),
            task.index() == index,
            task.first() == bound(len as nat, tasks as nat, index as int),
            task.end() == bound(len as nat, tasks as nat, index + 1),
    {
        proof {
            lemma_bounds(len as nat, tasks as nat, index as int);
        }
        SliceTask {
            build: Recorded::new(build),
            index,
            start: slice_start(len, tasks, index),
            past_end: slice_end(len, tasks, index),
            shared,
            right: Some(right),
        }
    }

    /// Whether this is the task `other`, but for its function and for being done.
    pub open spec fn same_place(&self, other: &Self) -> bool {
        &&& self.shared() == other.shared()
        &&& self.plan() == other.plan()
        &&& self.index() == other.index()
        &&& self.first() == other.first()
        &&& self.end() == other.end()
    }

    /// Whether `slice` was built by calls on the indices of the task in ascending order: each
    /// element came out of a call that was made when the elements before were there.
    pub open spec fn built_in_order(&self, slice: Seq<T>) -> bool {
        &&& slice.len() == self.end() - self.first()
        &&& forall|j: int|
            0 <= j < slice.len() ==> comes_after::<T, B>(
                self.first() as usize,
                slice.take(j),
                #[trigger] slice[j],
            )
    }

    /// Whether this is the task `other` after just these calls: one for each index of the task, in
    /// ascending order, of which `slice` is what they returned. Each of them found the function as
    /// the one before had left it.
    pub open spec fn has_called(&self, other: &Self, slice: Seq<T>) -> bool {
        follow_on(
            other.calls(),
            self.calls(),
            other.first(),
            slice,
            other.build_fn(),
            self.build_fn(),
        )
    }

    /// Calls the function on all indices of the task, in ascending order, once on each.
    ///
    /// The vector has to be wanted.
    pub fn build_slice(&mut self) -> (slice: Vec<T>)
        requires
            old(self).wf(),
            old(self).callable(),
            old(self).found_live(),
        ensures
            final(self).wf(),
            final(self).same_place(old(self)),
            final(self).right() == old(self).right(),
            final(self).callable(),
            old(self).can_build(slice@),
            old(self).built_in_order(slice@),
            final(self).has_called(old(self), slice@),
    {
        proof {
            lemma_bounds(self.plan().len, self.plan().tasks, self.index as int);
        }
        let count: usize = self.past_end - self.start;
        let mut slice: Vec<T> = Vec::with_capacity(count);
        assert(self.calls().take(self.calls().len() as int) =~= self.calls());
        while slice.len() < count
            invariant
                self.same_place(old(self)),
                self.right == old(self).right,
                self.build_fn() == old(self).build_fn(),
                self.callable(),
                self.start == old(self).start,
                self.past_end == old(self).past_end,
                self.index == old(self).index,
                self.start + count == self.past_end,
                slice@.len() <= count,
                has_built(self.build_fn(), self.start, slice@),
                self.has_called(old(self), slice@),
                forall|j: int|
                    0 <= j < slice@.len() ==> comes_after::<T, B>(
                        self.start,
                        slice@.take(j),
                        #[trigger] slice@[j],
                    ),
            decreases count - slice.len(),
        {
            let ghost built = slice@;
            let ghost before = *self;
            let index: usize = self.start + slice.len();
            assert(call_requires(self.build_fn(), (index,)));
            let permit = Permit::grant::<T, B>(index, Ghost(self.build_fn()));
            let element = self.build.next(permit, self.start, &slice);
            slice.push(element);
            assert forall|j: int| 0 <= j < slice@.len() implies comes_after::<T, B>(
                self.start,
                slice@.take(j),
                #[trigger] slice@[j],
            ) by {
                assert(slice@.take(j) =~= built.take(j));
                if j < built.len() {
                    assert(slice@[j] == built[j]);
                } else {
                    assert(built.take(j) =~= built);
                }
            }
            proof {
                lemma_one_call_more(
                    old(self).calls(),
                    before.calls(),
                    old(self).first(),
                    built,
                    old(self).build_fn(),
                    before.build_fn(),
                    self.calls().last(),
                );
            }
        }
        slice
    }

    /// Builds all elements in the range of the task.
    ///
    /// Running a task is an alternative to polling it, and useful on specific threads or in a
    /// blocking context.
    ///
    /// It must not be called after the task has already completed. If the vector is gone, because
    /// its result has been given up or dropped, nothing is built and the task stays as it is.
    /// Otherwise the slice that [`build_slice`](Self::build_slice) gives is delivered. If it was
    /// the last one, whoever waits for the vector is woken.
    pub fn run(&mut self) -> (outcome: Result<(), SliceTaskError>)
        requires
            old(self).wf(),
            old(self).callable(),
            !old(self).completed(),
        ensures
            final(self).wf(),
            final(self).same_place(old(self)),
            match outcome {
                Ok(()) => {
                    &&& final(self).completed()
                    &&& old(self).found_live()
                    &&& exists|
                        building: &mut SliceTask<T, B>,
                        slice: Vec<T>,
                        before: Ledger<T>,
                        after: Ledger<T>,
                        delivery: Result<bool, Vec<T>>,
                    |
                        {
                            &&& *building == *old(self)
                            &&& #[trigger] call_ensures(
                                SliceTask::<T, B>::build_slice,
                                (building,),
                                slice,
                            )
                            &&& old(self).can_build(slice@)
                            &&& old(self).built_in_order(slice@)
                            &&& final(self).has_called(old(self), slice@)
                            &&& #[trigger] old(self).shared().delivers(
                                before,
                                old(self).right()->0,
                                old(self).index() as usize,
                                slice,
                                after,
                                delivery,
                            )
                        }
                },
                Err(SliceTaskError::Deallocated) => {
                    &&& *final(self) == *old(self)
                    &&& exists|seen: Ledger<T>, holders: usize| #[trigger]
                        old(self).shared().looks(seen, holders, false)
                },
            },
    {
        if !self.is_live() {
            return Err(SliceTaskError::Deallocated);
        }
        let slice = self.build_slice();
        let ghost built = *self;
        proof {
            assert(self.plan().owes(self.index as int, slice@));
            assert(exists|building: &mut SliceTask<T, B>|
                {
                    &&& *building == *old(self)
                    &&& *final(building) == built
                    &&& #[trigger] call_ensures(
                        SliceTask::<T, B>::build_slice,
                        (building,),
                        slice,
                    )
                });
        }
        assert(self.shared() == *self.shared && old(self).index() as usize == self.index);
        if let Some(right) = self.right.take() {
            self.shared.deliver(right, self.index, slice);
        }
        assert(self.calls() == built.calls() && self.build_fn() == built.build_fn());
        assert(self.has_called(old(self), slice@));
        Ok(())
    }

    /// Polls the task, which [runs](Self::run) it. It does all its work at once, so it is never
    /// pending.
    pub fn poll(&mut self) -> (poll: Poll<Result<(), SliceTaskError>>)
        requires
            old(self).wf(),
            old(self).callable(),
            !old(self).completed(),
        ensures
            final(self).wf(),
            final(self).same_place(old(self)),
            exists|running: &mut SliceTask<T, B>, outcome: Result<(), SliceTaskError>|
                {
                    &&& *running == *old(self)
                    &&& *final(running) == *final(self)
                    &&& #[trigger] call_ensures(SliceTask::<T, B>::run, (running,), outcome)
                    &&& poll == Poll::Ready(outcome)
                },
            poll == Poll::Ready(Ok::<(), SliceTaskError>(())) ==> final(self).completed(),
            poll == Poll::Ready(Err::<(), SliceTaskError>(SliceTaskError::Deallocated))
                ==> *final(self) == *old(self),
    {
        let outcome = self.run();
        Poll::Ready(outcome)
    }
}

/// Whether `call` was made on that index, returned that element, and found the function in that
/// state.
pub open spec fn is_call<T, B>(call: Call<T, B>, index: int, element: T, found: B) -> bool {
    &&& call.index == index
    &&& *call.element == element
    &&& *call.found == found
}

/// Whether `calls` are those in `earlier` and then one for each element of `slice`, on the indices
/// from `first` on. The first of them found the function in the state `found`, each of the others
/// as the one before had left it, and the last one left it in the state `left`.
pub open spec fn follow_on<T, B>(
    earlier: Seq<Call<T, B>>,
    calls: Seq<Call<T, B>>,
    first: int,
    slice: Seq<T>,
    found: B,
    left: B,
) -> bool {
    let n = earlier.len();
    &&& calls.len() == n + slice.len()
    &&& calls.take(n as int) == earlier
    &&& forall|j: int|
        0 <= j < slice.len() ==> is_call(
            calls[n + j],
            first + j,
            #[trigger] slice[j],
            if j == 0 {
                found
            } else {
                *calls[n + j - 1].left
            },
        )
    &&& left == if slice.len() == 0 {
        found
    } else {
        *calls.last().left
    }
}

/// Whether each element of `built` is what `build` returns for its index, from `start` on.
pub open spec fn has_built<T, B>(build: B, start: usize, built: Seq<T>) -> bool where
    B: FnMut(usize) -> T,
 {
    forall|j: int|
        0 <= j < built.len() ==> call_ensures(
            build,
            ((start + j) as usize,),
            #[trigger] built[j],
        )
}

/// Whether `element` came out of a call for the index that follows those of `built`, which was
/// there by then.
pub open spec fn comes_after<T, B>(start: usize, built: Seq<T>, element: T) -> bool where
    B: FnMut(usize) -> T,
 {
    exists|build: &mut B, prefix: Vec<T>|
        {
            &&& prefix@ == built
            &&& #[trigger] call_ensures(next_element::<T, &mut B>, (build, start, &prefix), element)
        }
}

/// Builds the element that follows those in `built`, which start at index `start`. The function is
/// handed over for it, so there is one call and no other.
pub fn next_element<T, F>(build: F, start: usize, built: &Vec<T>) -> (element: T) where
    F: FnOnce(usize) -> T,

    requires
        start + built@.len() <= usize::MAX,
        call_requires(build, ((start + built@.len()) as usize,)),
    ensures
        call_ensures(build, ((start + built@.len()) as usize,), element),
{
    build(start + built.len())
}

/// One call more, on the index that follows, is recorded as such.
proof fn lemma_one_call_more<T, B>(
    earlier: Seq<Call<T, B>>,
    calls: Seq<Call<T, B>>,
    first: int,
    slice: Seq<T>,
    found: B,
    left: B,
    call: Call<T, B>,
)
    requires
        follow_on(earlier, calls, first, slice, found, left),
        call.index == first + slice.len(),
        *call.found == left,
    ensures
        follow_on(earlier, calls.push(call), first, slice.push(*call.element), found, *call.left),
{
    let n = earlier.len() as int;
    let more = calls.push(call);
    let longer = slice.push(*call.element);
    assert(more.take(n) =~= calls.take(n));
    assert forall|j: int| 0 <= j < longer.len() implies is_call(
        more[n + j],
        first + j,
        #[trigger] longer[j],
        if j == 0 {
            found
        } else {
            *more[n + j - 1].left
        },
    ) by {
        if j < slice.len() {
            assert(slice[j] == longer[j]);
            assert(more[n + j] == calls[n + j]);
        } else if j > 0 {
            assert(calls.last() == more[n + j - 1]);
        }
    }
    assert(more.last() == call);
}

impl<T, B> PartialEq for SliceTask<T, B> {
    /// Tasks are equal if they have the same range in the same build.
    fn eq(&self, other: &Self) -> (equal: bool) {
        let same_build = same_allocation(&self.shared, &other.shared);
        self.same_slice(other, same_build)
    }
}

impl<T, B> vstd::std_specs::cmp::PartialEqSpecImpl for SliceTask<T, B> {
    open spec fn obeys_eq_spec() -> bool {
        true
    }

    /// The tasks have the same range in the same build.
    open spec fn eq_spec(&self, other: &Self) -> bool {
        &&& self.first() == other.first()
        &&& self.end() == other.end()
        &&& self.shared() == other.shared()
    }
}

impl<T, B> Eq for SliceTask<T, B> {

}

/// Whether the hasher `state` was fed `word`.
pub closed spec fn fed<H: std::hash::Hasher>(word: usize, state: &mut H) -> bool {
    call_ensures(feed::<H>, (word, state), ())
}

impl<T, B> std::hash::Hash for SliceTask<T, B> {
    /// Feeds the range of the task and where its build comes from, in this order.
    fn hash<H: std::hash::Hasher>(&self, state: &mut H)
        ensures
            exists|a: &mut H, b: &mut H, c: &mut H|
                {
                    &&& *a == *old(state)
                    &&& *final(a) == *b
                    &&& *final(b) == *c
                    &&& *final(c) == *final(state)
                    &&& #[trigger] fed(self.hash_words()[0], a)
                    &&& #[trigger] fed(self.hash_words()[1], b)
                    &&& #[trigger] fed(self.hash_words()[2], c)
                },
    {
        let words = self.hash_input();
        assert(forall|word: usize, fed_state: &mut H| #[trigger]
            call_ensures(feed::<H>, (word, fed_state), ()) ==> fed(word, fed_state));
        let ghost start = *state;
        feed(words[0], state);
        let ghost second = *state;
        assert(exists|a: &mut H|
            *a == start && *final(a) == second && #[trigger] fed(self.hash_words()[0], a));
        feed(words[1], state);
        let ghost third = *state;
        assert(exists|b: &mut H|
            *b == second && *final(b) == third && #[trigger] fed(self.hash_words()[1], b));
        feed(words[2], state);
        assert(exists|c: &mut H|
            *c == third && *final(c) == *state && #[trigger] fed(self.hash_words()[2], c));
    }
}

} // verus!
