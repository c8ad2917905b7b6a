//! What the tasks of one build have agreed on.

use crate::partition::{bound, lemma_bounds};
use crate::ledger::Ledger;
use crate::progress::{joined, lemma_joined_step, lemma_missing_none, missing};
use crate::right::Terms;
use vstd::prelude::*;
use vstd::rwlock::RwLockPredicate;

verus! {

/// The plan of a build: `tasks` tasks share `len` elements, and `built(i, x)` tells whether `x`
/// may become the element at index `i`. The terms say who may change what.
#[verifier::reject_recursive_types(T)]
pub struct Plan<T> {
    pub len: nat,
    pub tasks: nat,
    pub built: spec_fn(int, T) -> bool,
    pub terms: Terms,
}

impl<T> Plan<T> {
    /// There is no task without an element, and if there are elements, there is a task. Each task
    /// has a right.
    pub open spec fn wf(self) -> bool {
        &&& self.tasks <= self.len
        &&& self.len > 0 ==> self.tasks > 0
        &&& self.terms.rights.len() == self.tasks
    }

    /// The first index of task `k`.
    pub open spec fn start(self, k: int) -> int {
        bound(self.len, self.tasks, k)
    }

    /// The index past the end of task `k`.
    pub open spec fn past_end(self, k: int) -> int {
        bound(self.len, self.tasks, k + 1)
    }

    /// Whether `slice` is what task `k` owes: one element for each of its indices.
    pub open spec fn owes(self, k: int, slice: Seq<T>) -> bool {
        &&& slice.len() == self.past_end(k) - self.start(k)
        &&& forall|j: int|
            0 <= j < slice.len() ==> (self.built)(self.start(k) + j, #[trigger] slice[j])
    }

    /// Whether every filled slot holds what its task owes.
    pub open spec fn admits(self, slots: Seq<Option<Seq<T>>>) -> bool {
        &&& slots.len() == self.tasks
        &&& forall|k: int|
            0 <= k < slots.len() && slots[k] is Some ==> self.owes(k, #[trigger] slots[k]->0)
    }

    /// Whether `vec` is a finished vector: an element for every index.
    pub open spec fn finished(self, vec: Seq<T>) -> bool {
        &&& vec.len() == self.len
        &&& forall|i: int| 0 <= i < vec.len() ==> (self.built)(i, #[trigger] vec[i])
    }
}

impl<T> RwLockPredicate<Ledger<T>> for Plan<T> {
    /// The ledger of a build is under its terms, and keeps to its plan as long as it has slots.
    open spec fn inv(self, ledger: Ledger<T>) -> bool {
        &&& ledger.wf()
        &&& ledger.progress().wf()
        &&& ledger.terms() == self.terms
        &&& ledger@ is Some ==> self.admits(ledger@->0)
    }
}

/// The first `k` slices, put together, are the elements before the first index of task `k`.
proof fn lemma_prefix<T>(plan: Plan<T>, slots: Seq<Option<Seq<T>>>, k: int)
    requires
        plan.wf(),
        plan.admits(slots),
        forall|m: int| 0 <= m < slots.len() ==> slots[m] is Some,
        0 <= k <= slots.len(),
    ensures
        joined(slots.take(k)).len() == plan.start(k),
        forall|i: int|
            0 <= i < plan.start(k) ==> (plan.built)(i, #[trigger] joined(slots.take(k))[i]),
    decreases k,
{
    if k == 0 {
        if plan.tasks > 0 {
            lemma_bounds(plan.len, plan.tasks, 0);
        }
        assert(slots.take(0) =~= Seq::empty());
        assert(joined(slots.take(0)) =~= Seq::<T>::empty());
    } else {
        lemma_bounds(plan.len, plan.tasks, k - 1);
        lemma_prefix(plan, slots, k - 1);
        lemma_joined_step(slots, k - 1);
        let before = joined(slots.take(k - 1));
        let slice = slots[k - 1]->0;
        assert(plan.owes(k - 1, slice));
        assert forall|i: int| 0 <= i < plan.start(k) implies (plan.built)(
            i,
            #[trigger] joined(slots.take(k))[i],
        ) by {
            if i < before.len() {
                assert((plan.built)(i, before[i]));
            } else {
                assert((plan.built)(plan.start(k - 1) + (i - before.len()), slice[i - before.len()]));
            }
        }
    }
}

/// Law: once no slot is missing, the slices put together are the finished vector.
pub proof fn law_joined_slices_are_the_vector<T>(plan: Plan<T>, slots: Seq<Option<Seq<T>>>)
    requires
        plan.wf(),
        plan.admits(slots),
        missing(slots) == 0,
    ensures
        plan.finished(joined(slots)),
{
    lemma_missing_none(slots);
    lemma_prefix(plan, slots, slots.len() as int);
    assert(slots.take(slots.len() as int) =~= slots);
}

} // verus!
