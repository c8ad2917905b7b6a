//! What holds of a build as a whole, in whatever order its tasks are done.

use crate::builder::{build_vec, is_planned, produces, VecBuilder};
use crate::label::{label_of, law_labels_differ};
use crate::ledger::Ledger;
use crate::partition::{
    bound, law_no_task_is_idle, lemma_bounds, lemma_bounds_monotonic,
};
use crate::plan::{law_joined_slices_are_the_vector, Plan};
use crate::progress::{
    joined, lemma_missing_all, lemma_missing_fill, lemma_missing_none, missing, slots_view,
};
use crate::result::VecResult;
use crate::right::Right;
use crate::shared::{
    law_slots_are_filled_by_right, law_slots_are_taken_by_the_claim, law_waker_comes_first, Claim,
    Shared,
};
use crate::strategy::{at_most, Strategy};
use crate::task::{SliceTask, SliceTaskError};
use atomic_waker::AtomicWaker;
use std::task::{Poll, Waker};
use vstd::pervasive::strictly_cloned;
use vstd::prelude::*;
use vstd::rwlock::RwLock;
use vstd::std_specs::cmp::PartialEqSpec;

verus! {

/// The slots of a build by `tasks` tasks after those in `order` are done, one after the other.
/// Task `k` delivers `slices[k]`.
pub open spec fn delivered<T>(tasks: nat, slices: Seq<Seq<T>>, order: Seq<int>) -> Seq<
    Option<Seq<T>>,
>
    decreases order.len(),
{
    if order.len() == 0 {
        Seq::new(tasks, |k: int| None::<Seq<T>>)
    } else {
        let k = order.last();
        delivered(tasks, slices, order.drop_last()).update(k, Some(slices[k]))
    }
}

/// Whether `order` names tasks that are done, none of them twice.
pub open spec fn is_order(tasks: nat, order: Seq<int>) -> bool {
    &&& forall|j: int| 0 <= j < order.len() ==> 0 <= #[trigger] order[j] < tasks
    &&& order.no_duplicates()
}

/// Whether `order` names all tasks once.
pub open spec fn is_full_order(tasks: nat, order: Seq<int>) -> bool {
    &&& is_order(tasks, order)
    &&& order.len() == tasks
}

/// The tasks but the last of an order are in order.
proof fn lemma_earlier_order(tasks: nat, order: Seq<int>)
    requires
        is_order(tasks, order),
        order.len() > 0,
    ensures
        is_order(tasks, order.drop_last()),
{
    let earlier = order.drop_last();
    assert forall|j: int| 0 <= j < earlier.len() implies 0 <= #[trigger] earlier[j] < tasks by {
        assert(earlier[j] == order[j]);
    }
}

/// Law: every task that is done fills its own slot and no other, and leaves one task fewer
/// outstanding.
pub proof fn law_every_delivery_counts<T>(tasks: nat, slices: Seq<Seq<T>>, order: Seq<int>)
    requires
        is_order(tasks, order),
    ensures
        delivered(tasks, slices, order).len() == tasks,
        forall|k: int|
            0 <= k < tasks ==> #[trigger] delivered(tasks, slices, order)[k] == if order.contains(
                k,
            ) {
                Some(slices[k])
            } else {
                None
            },
        missing(delivered(tasks, slices, order)) == tasks - order.len(),
    decreases order.len(),
{
    let now = delivered(tasks, slices, order);
    if order.len() == 0 {
        lemma_missing_all(now);
    } else {
        let earlier = order.drop_last();
        let before = delivered(tasks, slices, earlier);
        let last = order.last();
        lemma_earlier_order(tasks, order);
        law_every_delivery_counts(tasks, slices, earlier);
        assert(order[order.len() - 1] == last);
        assert(!earlier.contains(last)) by {
            if earlier.contains(last) {
                let j = choose|j: int| 0 <= j < earlier.len() && earlier[j] == last;
                assert(order[j] == order[order.len() - 1]);
            }
        }
        lemma_missing_fill(before, last, slices[last]);
        assert forall|k: int| 0 <= k < tasks implies #[trigger] now[k] == if order.contains(k) {
            Some(slices[k])
        } else {
            None
        } by {
            if k == last {
                assert(order.contains(k));
            } else {
                assert(now[k] == before[k]);
                if earlier.contains(k) {
                    let j = choose|j: int| 0 <= j < earlier.len() && earlier[j] == k;
                    assert(order[j] == k);
                }
                if order.contains(k) {
                    let j = choose|j: int| 0 <= j < order.len() && order[j] == k;
                    assert(earlier[j] == k);
                }
            }
        }
    }
}

/// Law: the vector is there when all tasks are done, and not before. So the task that completes
/// it, and wakes whoever waits, is the one that is done last, and no other.
pub proof fn law_vector_is_there_when_all_tasks_are_done<T>(
    tasks: nat,
    slices: Seq<Seq<T>>,
    order: Seq<int>,
)
    requires
        is_order(tasks, order),
    ensures
        order.len() <= tasks,
        missing(delivered(tasks, slices, order)) == 0 <==> order.len() == tasks,
        order.len() > 0 ==> (missing(delivered(tasks, slices, order.drop_last())) == 1
            <==> order.len() == tasks),
{
    law_every_delivery_counts(tasks, slices, order);
    if order.len() > 0 {
        let earlier = order.drop_last();
        lemma_earlier_order(tasks, order);
        law_every_delivery_counts(tasks, slices, earlier);
    }
}

/// Law: the order in which the tasks are done does not matter. Once all are done, each slot holds
/// the slice of its task.
pub proof fn law_order_does_not_matter<T>(tasks: nat, slices: Seq<Seq<T>>, order: Seq<int>)
    requires
        is_full_order(tasks, order),
        slices.len() == tasks,
    ensures
        delivered(tasks, slices, order) == slices.map_values(|slice: Seq<T>| Some(slice)),
        joined(delivered(tasks, slices, order)) == slices.flatten(),
{
    let slots = delivered(tasks, slices, order);
    law_every_delivery_counts(tasks, slices, order);
    lemma_missing_none(slots);
    assert forall|k: int| 0 <= k < tasks implies slots[k] == Some(#[trigger] slices[k]) by {
        assert(slots[k] is Some);
    }
    assert(slots =~= slices.map_values(|slice: Seq<T>| Some(slice)));
    assert(slots.map_values(|slot: Option<Seq<T>>| slot->0) =~= slices);
}

/// Law: a build results in its vector. If every task of a new build delivers what it builds, in
/// any order, then the slices put together are a finished vector: it has `len` elements, and the
/// one at index `i` is what a clone of `f` returns for `i`.
pub proof fn law_build_results_in_the_vector<I, B>(
    builder: VecBuilder<I, B>,
    len: nat,
    tasks: nat,
    f: B,
    slices: Seq<Seq<I>>,
    order: Seq<int>,
) where B: FnMut(usize) -> I + Clone
    requires
        builder.builds(len, tasks, f),
        slices.len() == tasks,
        forall|k: int| 0 <= k < tasks ==> builder.tasks@[k].can_build(#[trigger] slices[k]),
        is_full_order(tasks, order),
    ensures
        missing(delivered(tasks, slices, order)) == 0,
        builder.result.plan().admits(delivered(tasks, slices, order)),
        builder.result.plan().finished(joined(delivered(tasks, slices, order))),
        joined(delivered(tasks, slices, order)).len() == len,
        forall|i: int|
            0 <= i < len ==> produces(f, i, #[trigger] joined(delivered(tasks, slices, order))[i]),
{
    let plan = builder.result.plan();
    let slots = delivered(tasks, slices, order);
    law_every_delivery_counts(tasks, slices, order);
    lemma_missing_none(slots);
    assert forall|k: int| 0 <= k < slots.len() && slots[k] is Some implies plan.owes(
        k,
        #[trigger] slots[k]->0,
    ) by {
        let task = builder.tasks@[k];
        let slice = slices[k];
        lemma_bounds(len, tasks, k);
        assert(task.can_build(slice));
        assert forall|j: int| 0 <= j < slice.len() implies (plan.built)(
            plan.start(k) + j,
            #[trigger] slice[j],
        ) by {
            let i = plan.start(k) + j;
            assert(call_ensures(task.build_fn(), (i as usize,), slice[j]));
            assert(produces(f, i, slice[j]));
        }
    }
    law_joined_slices_are_the_vector(plan, slots);
    assert forall|i: int| 0 <= i < len implies produces(f, i, #[trigger] joined(slots)[i]) by {
        assert((plan.built)(i, joined(slots)[i]));
    }
}

/// Law: what is finished is the function. If every clone of `f` returns `value(i)` for index `i`,
/// and nothing else, then a finished vector has `value(i)` at every index `i`.
pub proof fn law_finished_vector_is_the_function<I, B>(
    plan: Plan<I>,
    f: B,
    value: spec_fn(int) -> I,
    vec: Seq<I>,
) where B: FnMut(usize) -> I + Clone
    requires
        forall|i: int, x: I| #[trigger] (plan.built)(i, x) == produces(f, i, x),
        forall|g: B, i: int, x: I|
            0 <= i < plan.len && strictly_cloned(f, g) && #[trigger] call_ensures(g, (i as usize,), x) ==> x
                == value(i),
        plan.finished(vec),
    ensures
        vec == Seq::new(plan.len, value),
{
    assert forall|i: int| 0 <= i < vec.len() implies #[trigger] vec[i] == value(i) by {
        assert((plan.built)(i, vec[i]));
        let g = choose|g: B| strictly_cloned(f, g) && #[trigger] call_ensures(g, (i as usize,), vec[i]);
        assert(call_ensures(g, (i as usize,), vec[i]));
    }
    assert(vec =~= Seq::new(plan.len, value));
}

/// Whether `history` is what the lock of a build held as the tasks in `order` were done one after
/// the other: first the progress of a build of which no task is done, and then what each delivery
/// left behind. Task `k` delivers `slices[k]`, and delivery `j` has the outcome `outcomes[j]`.
///
/// A lock hands out what was put into it last. So deliveries that are made to one lock follow
/// each other like this, whichever threads make them. Looking at the progress and asking it for
/// the vector too early put back what they have taken out, and do not show.
pub open spec fn is_history<T>(
    shared: Shared<T>,
    tasks: nat,
    slices: Seq<Vec<T>>,
    order: Seq<int>,
    outcomes: Seq<Result<bool, Vec<T>>>,
    history: Seq<Ledger<T>>,
) -> bool {
    &&& history.len() == order.len() + 1
    &&& outcomes.len() == order.len()
    &&& history[0].wf()
    &&& history[0]@ == Some(Seq::new(tasks, |k: int| None::<Seq<T>>))
    &&& forall|j: int|
        0 <= j < order.len() ==> shared.delivers(
            history[j],
            shared.right(order[j]),
            order[j] as usize,
            slices[order[j]],
            history[j + 1],
            #[trigger] outcomes[j],
        )
}

/// The elements of each slice.
pub open spec fn elements<T>(slices: Seq<Vec<T>>) -> Seq<Seq<T>> {
    slices.map_values(|slice: Vec<T>| slice@)
}

/// Law: deliveries fill the slots one by one. After the tasks in `order` have delivered, the
/// progress has their slices and no others, and every delivery was taken. The one that leaves no
/// task outstanding, which wakes whoever waits, is that of the last task, and no other.
pub proof fn law_deliveries_fill_the_slots<T>(
    shared: Shared<T>,
    tasks: nat,
    slices: Seq<Vec<T>>,
    order: Seq<int>,
    outcomes: Seq<Result<bool, Vec<T>>>,
    history: Seq<Ledger<T>>,
)
    requires
        tasks <= usize::MAX,
        slices.len() == tasks,
        is_order(tasks, order),
        is_history(shared, tasks, slices, order, outcomes, history),
    ensures
        history.last().wf(),
        history.last()@ == Some(delivered(tasks, elements(slices), order)),
        missing(history.last()@->0) == tasks - order.len(),
        forall|j: int|
            0 <= j < order.len() ==> #[trigger] outcomes[j] == Ok::<bool, Vec<T>>(j + 1 == tasks),
        order.len() == tasks && tasks > 0 ==> call_ensures(
            AtomicWaker::wake,
            (&shared.cell(),),
            (),
        ),
    decreases order.len(),
{
    law_every_delivery_counts(tasks, elements(slices), order);
    if order.len() > 0 {
        let earlier = order.drop_last();
        let n = earlier.len() as int;
        let earlier_outcomes = outcomes.drop_last();
        let earlier_history = history.drop_last();
        lemma_earlier_order(tasks, order);
        assert forall|j: int| 0 <= j < earlier.len() implies shared.delivers(
            earlier_history[j],
            shared.right(earlier[j]),
            earlier[j] as usize,
            slices[earlier[j]],
            earlier_history[j + 1],
            #[trigger] earlier_outcomes[j],
        ) by {
            assert(outcomes[j] == earlier_outcomes[j]);
        }
        assert(is_history(shared, tasks, slices, earlier, earlier_outcomes, earlier_history));
        law_deliveries_fill_the_slots(
            shared,
            tasks,
            slices,
            earlier,
            earlier_outcomes,
            earlier_history,
        );
        law_every_delivery_counts(tasks, elements(slices), earlier);
        let k = order.last();
        assert(order[n] == k);
        assert(!earlier.contains(k)) by {
            if earlier.contains(k) {
                let j = choose|j: int| 0 <= j < earlier.len() && earlier[j] == k;
                assert(order[j] == order[n]);
            }
        }
        assert(earlier_history.last() == history[n]);
        assert(delivered(tasks, elements(slices), earlier)[k] is None);
        assert(history[n].progress().awaits(k));
        assert(shared.delivers(
            history[n],
            shared.right(k),
            k as usize,
            slices[k],
            history[n + 1],
            outcomes[n],
        ));
        assert(elements(slices)[k] == slices[k]@);
        assert forall|j: int| 0 <= j < order.len() implies #[trigger] outcomes[j] == Ok::<
            bool,
            Vec<T>,
        >(j + 1 == tasks) by {
            if j < n {
                assert(outcomes[j] == earlier_outcomes[j]);
            }
        }
    }
}

/// Law: the result has to wait for every task. As long as a task has not delivered, whoever asks
/// is told to wait, and nothing is taken away.
pub proof fn law_result_is_pending_until_all_tasks_are_done<T>(
    shared: Shared<T>,
    tasks: nat,
    slices: Seq<Vec<T>>,
    order: Seq<int>,
    outcomes: Seq<Result<bool, Vec<T>>>,
    history: Seq<Ledger<T>>,
    after: Ledger<T>,
    poll: Poll<Vec<Option<Vec<T>>>>,
)
    requires
        tasks <= usize::MAX,
        slices.len() == tasks,
        is_order(tasks, order),
        order.len() < tasks,
        is_history(shared, tasks, slices, order, outcomes, history),
        shared.polls(history.last(), after, poll),
    ensures
        poll is Pending,
        after == history.last(),
{
    law_deliveries_fill_the_slots(shared, tasks, slices, order, outcomes, history);
}

/// Law: once every task of a build has delivered what it has built, in any order, the result is
/// ready. What comes out of the slots, put together, is a finished vector: it has `len` elements,
/// and the one at index `i` is what a clone of `f` returns for `i`.
pub proof fn law_result_is_ready_when_all_tasks_are_done<I, B>(
    builder: VecBuilder<I, B>,
    len: nat,
    tasks: nat,
    f: B,
    slices: Seq<Vec<I>>,
    order: Seq<int>,
    outcomes: Seq<Result<bool, Vec<I>>>,
    history: Seq<Ledger<I>>,
    after: Ledger<I>,
    poll: Poll<Vec<Option<Vec<I>>>>,
) where B: FnMut(usize) -> I + Clone
    requires
        builder.builds(len, tasks, f),
        slices.len() == tasks,
        forall|k: int| 0 <= k < tasks ==> builder.tasks@[k].can_build(#[trigger] slices[k]@),
        is_full_order(tasks, order),
        is_history(builder.result.shared(), tasks, slices, order, outcomes, history),
        builder.result.shared().polls(history.last(), after, poll),
    ensures
        poll matches Poll::Ready(slots) && {
            let vec = joined(slots_view(slots@));
            &&& vec == elements(slices).flatten()
            &&& builder.result.plan().finished(vec)
            &&& vec.len() == len
            &&& forall|i: int| 0 <= i < len ==> produces(f, i, #[trigger] vec[i])
        },
{
    let views = elements(slices);
    law_deliveries_fill_the_slots(
        builder.result.shared(),
        tasks,
        slices,
        order,
        outcomes,
        history,
    );
    assert forall|k: int| 0 <= k < tasks implies builder.tasks@[k].can_build(#[trigger] views[k]) by {
        assert(views[k] == slices[k]@);
    }
    law_build_results_in_the_vector(builder, len, tasks, f, views, order);
    law_order_does_not_matter(tasks, views, order);
}

/// Law: no wake-up is lost. If whoever asks for the vector is told to wait, the last delivery is
/// still to come. The waker had been left before the progress was looked at, so it was there when
/// the last delivery was made, and the cell that holds it was woken after that.
pub proof fn law_no_wake_up_is_lost<T>(
    claim: Claim<T>,
    waker: &Waker,
    tasks: nat,
    slices: Seq<Vec<T>>,
    order: Seq<int>,
    outcomes: Seq<Result<bool, Vec<T>>>,
    history: Seq<Ledger<T>>,
    m: int,
    after: Ledger<T>,
)
    requires
        tasks <= usize::MAX,
        slices.len() == tasks,
        is_full_order(tasks, order),
        is_history(claim.shared(), tasks, slices, order, outcomes, history),
        0 <= m < history.len(),
        claim.asks(waker, history[m], after, Poll::Pending),
    ensures
        call_ensures(AtomicWaker::register, (&claim.shared().cell(), waker), ()),
        m < tasks,
        after == history[m],
        outcomes[tasks - 1] == Ok::<bool, Vec<T>>(true),
        claim.shared().tells(
            history[tasks - 1],
            order[tasks - 1] as usize,
            slices[order[tasks - 1]],
            history[tasks as int],
            outcomes[tasks - 1],
        ),
        call_ensures(AtomicWaker::wake, (&claim.shared().cell(),), ()),
{
    law_waker_comes_first(claim, waker, history[m], after, Poll::Pending);
    law_deliveries_fill_the_slots(claim.shared(), tasks, slices, order, outcomes, history);
    assert(history.last() == history[tasks as int]);
}

/// Law: a vector is taken to be wanted if its slots exist and somebody besides the tasks keeps on
/// to the build, and only then.
pub proof fn law_wanted_vectors_are_claimed<T>(
    shared: Shared<T>,
    seen: Ledger<T>,
    holders: usize,
    wanted: bool,
)
    requires
        shared.looks(seen, holders, wanted),
    ensures
        wanted == (seen@ is Some && holders > 1),
{
}

/// Law: a vector that has been handed out or given up is gone for good. No task finds it live any
/// more, it takes no slice, and whoever asks for it waits in vain.
pub proof fn law_what_is_gone_stays_gone<T>(
    shared: Shared<T>,
    gone: Ledger<T>,
    holders: usize,
    live: bool,
    right: Right,
    k: usize,
    slice: Vec<T>,
    left: Ledger<T>,
    outcome: Result<bool, Vec<T>>,
    after: Ledger<T>,
    poll: Poll<Vec<Option<Vec<T>>>>,
)
    requires
        gone@ is None,
    ensures
        shared.looks(gone, holders, live) ==> !live,
        shared.delivers(gone, right, k, slice, left, outcome) ==> left == gone && outcome == Err::<
            bool,
            Vec<T>,
        >(slice),
        shared.polls(gone, after, poll) ==> after == gone && poll is Pending,
{
}

/// Law: asking for the vector with success and giving it up both make it gone.
pub proof fn law_taking_and_giving_up_make_it_gone<T>(
    shared: Shared<T>,
    before: Ledger<T>,
    after: Ledger<T>,
    slots: Vec<Option<Vec<T>>>,
)
    ensures
        shared.polls(before, after, Poll::Ready(slots)) ==> after@ is None,
        shared.releases(before, after, slots) ==> after@ is None,
{
}

/// Law: a single task builds the whole vector. It starts at the first index and ends past the
/// last, and the vector is the slice that it builds, in the order in which it builds it.
pub proof fn law_one_task_builds_the_whole_vector<I, B>(
    builder: VecBuilder<I, B>,
    len: nat,
    f: B,
    slice: Seq<I>,
) where B: FnMut(usize) -> I + Clone
    requires
        builder.builds(len, 1, f),
    ensures
        builder.tasks@[0].first() == 0,
        builder.tasks@[0].end() == len,
        joined(delivered(1, seq![slice], seq![0])) == slice,
{
    law_tasks_follow_each_other(builder, len, 1, f, 0);
    law_order_does_not_matter(1, seq![slice], seq![0]);
    assert(seq![slice] =~= Seq::<Seq<I>>::empty().push(slice));
    Seq::<Seq<I>>::empty().lemma_flatten_push(slice);
    assert(Seq::<Seq<I>>::empty().flatten() + slice =~= slice);
}

/// Law: a build of no elements has no task, and its vector is there from the start.
pub proof fn law_empty_vector_is_there_from_the_start<I, B>(
    builder: VecBuilder<I, B>,
    tasks: nat,
    f: B,
    first: Ledger<I>,
    after: Ledger<I>,
    poll: Poll<Vec<Option<Vec<I>>>>,
) where B: FnMut(usize) -> I + Clone
    requires
        builder.builds(0, tasks, f),
        first@ == Some(Seq::new(tasks, |k: int| None::<Seq<I>>)),
        builder.result.shared().polls(first, after, poll),
    ensures
        tasks == 0,
        builder.tasks@.len() == 0,
        poll matches Poll::Ready(slots) && joined(slots_view(slots@)) == Seq::<I>::empty(),
{
    law_result_is_ready_when_all_tasks_are_done(
        builder,
        0,
        0,
        f,
        Seq::empty(),
        Seq::empty(),
        Seq::empty(),
        seq![first],
        after,
        poll,
    );
}

/// Law: the tasks of a build follow each other without a gap, from the first index to the last,
/// and each of them has an index.
pub proof fn law_tasks_follow_each_other<I, B>(
    builder: VecBuilder<I, B>,
    len: nat,
    tasks: nat,
    f: B,
    k: int,
) where B: FnMut(usize) -> I + Clone
    requires
        builder.builds(len, tasks, f),
        0 <= k < tasks,
    ensures
        builder.tasks@[0].first() == 0,
        builder.tasks@[k].first() < builder.tasks@[k].end(),
        k + 1 < tasks ==> builder.tasks@[k].end() == builder.tasks@[k + 1].first(),
        builder.tasks@[tasks - 1].end() == len,
{
    lemma_bounds(len, tasks, k);
    law_no_task_is_idle(len, tasks, k);
    assert(builder.tasks@[0].first() == bound(len, tasks, 0));
    assert(builder.tasks@[k].end() == bound(len, tasks, k + 1));
    assert(builder.tasks@[tasks - 1].end() == bound(len, tasks, tasks as int));
}

/// Law: different tasks of a build start at different indices, in the order of their numbers. So
/// they are equal only if they are the same.
pub proof fn law_tasks_of_a_build_differ<I, B>(
    builder: VecBuilder<I, B>,
    len: nat,
    tasks: nat,
    f: B,
    j: int,
    k: int,
) where B: FnMut(usize) -> I + Clone
    requires
        builder.builds(len, tasks, f),
        0 <= j < tasks,
        0 <= k < tasks,
    ensures
        j < k ==> builder.tasks@[j].first() < builder.tasks@[k].first(),
        builder.tasks@[j].eq_spec(&builder.tasks@[k]) <==> j == k,
{
    if j < k {
        lemma_starts_ascend(builder, len, tasks, f, j, k);
    } else if k < j {
        lemma_starts_ascend(builder, len, tasks, f, k, j);
    }
}

/// A task starts after those with a lower number.
proof fn lemma_starts_ascend<I, B>(
    builder: VecBuilder<I, B>,
    len: nat,
    tasks: nat,
    f: B,
    j: int,
    k: int,
) where B: FnMut(usize) -> I + Clone
    requires
        builder.builds(len, tasks, f),
        0 <= j < k < tasks,
    ensures
        builder.tasks@[j].first() < builder.tasks@[k].first(),
{
    law_no_task_is_idle(len, tasks, j);
    lemma_bounds_monotonic(len, tasks, j + 1, k);
    assert(builder.tasks@[j].first() == bound(len, tasks, j));
}

/// Law: equality of tasks is an equivalence.
pub proof fn law_equality_is_an_equivalence<T, B>(
    a: SliceTask<T, B>,
    b: SliceTask<T, B>,
    c: SliceTask<T, B>,
)
    ensures
        a.eq_spec(&a),
        a.eq_spec(&b) ==> b.eq_spec(&a),
        a.eq_spec(&b) && b.eq_spec(&c) ==> a.eq_spec(&c),
{
}

/// Law: equal tasks feed a hasher the same words.
pub proof fn law_equal_tasks_feed_equal_words<T, B>(a: SliceTask<T, B>, b: SliceTask<T, B>)
    requires
        a.eq_spec(&b),
    ensures
        a.hash_words() == b.hash_words(),
{
}

/// Law: a task that has run is equal to what it was before, and feeds a hasher the same words.
/// Running and polling leave it in its place.
pub proof fn law_place_is_what_counts<T, B>(a: SliceTask<T, B>, b: SliceTask<T, B>) where
    B: FnMut(usize) -> T,

    requires
        a.same_place(&b),
    ensures
        a.eq_spec(&b),
        a.hash_words() == b.hash_words(),
{
}

/// Law: tasks are equal if they have the same range in the same build, and only then.
pub proof fn law_equal_tasks_share_range_and_build<T, B>(a: SliceTask<T, B>, b: SliceTask<T, B>)
    ensures
        a.eq_spec(&b) <==> a.first() == b.first() && a.end() == b.end() && a.shared() == b.shared(),
        forall|equal: bool| #[trigger]
            call_ensures(SliceTask::<T, B>::eq, (&a, &b), equal) ==> equal == (a.first()
                == b.first() && a.end() == b.end() && a.shared() == b.shared()),
{
}

/// Law: the words that a task feeds a hasher tell its range and the origin of its build. Tasks
/// that differ in one of them feed different words.
pub proof fn law_words_tell_range_and_origin<T, B>(a: SliceTask<T, B>, b: SliceTask<T, B>)
    requires
        0 <= a.first() <= a.end() <= usize::MAX,
        0 <= b.first() <= b.end() <= usize::MAX,
    ensures
        a.hash_words() == b.hash_words() <==> a.first() == b.first() && a.end() == b.end()
            && a.shared().origin() == b.shared().origin(),
        a.hash_words().len() == 3,
        a.hash_words()[0] == a.first(),
        a.hash_words()[1] == a.end(),
        a.hash_words()[2] == a.shared().origin(),
{
    assert(a.hash_words()[0] == a.first() && b.hash_words()[0] == b.first());
    assert(a.hash_words()[1] == a.end() && b.hash_words()[1] == b.end());
    assert(a.hash_words()[2] == a.shared().origin() && b.hash_words()[2] == b.shared().origin());
}

/// Law: what is filled stays filled. A delivery makes no vector gone and takes no slice away. It
/// fills the slot of its task if that is empty, which leaves one slot fewer missing, and changes
/// nothing else.
pub proof fn law_filled_slots_stay_filled<T>(
    shared: Shared<T>,
    before: Ledger<T>,
    right: Right,
    k: usize,
    slice: Vec<T>,
    after: Ledger<T>,
    outcome: Result<bool, Vec<T>>,
)
    requires
        shared.delivers(before, right, k, slice, after, outcome),
    ensures
        after@ is Some <==> before@ is Some,
        before@ is Some ==> {
            let old_slots = before@->0;
            let new_slots = after@->0;
            &&& new_slots.len() == old_slots.len()
            &&& forall|m: int|
                0 <= m < old_slots.len() && (m != k || old_slots[m] is Some)
                    ==> #[trigger] new_slots[m] == old_slots[m]
            &&& k < old_slots.len() && old_slots[k as int] is None ==> {
                &&& new_slots[k as int] == Some(slice@)
                &&& missing(new_slots) == missing(old_slots) - 1
            }
        },
        right == shared.right(k as int),
{
    law_slots_are_filled_by_right(before, right, k, slice, after, outcome);
}

/// Law: waiting changes nothing. Whoever is told to wait, and every task that looks whether its
/// vector is wanted, has put back what was in the lock.
pub proof fn law_waiting_changes_nothing<T>(
    shared: Shared<T>,
    before: Ledger<T>,
    after: Ledger<T>,
)
    requires
        shared.polls(before, after, Poll::Pending),
    ensures
        after == before,
        after@ is Some ==> missing(after@->0) > 0,
{
}

/// Law: a vector is only gone because the claim was used. Asking for it makes it gone only if no
/// slot was missing, and then hands it out.
pub proof fn law_only_the_claim_makes_it_gone<T>(
    shared: Shared<T>,
    before: Ledger<T>,
    after: Ledger<T>,
    poll: Poll<Vec<Option<Vec<T>>>>,
)
    requires
        shared.polls(before, after, poll),
        before@ is Some,
    ensures
        after@ is None <==> missing(before@->0) == 0,
        after@ is None <==> poll is Ready,
        poll matches Poll::Ready(slots) ==> slots_view(slots@) == before@->0,
        after.terms() == before.terms(),
{
    law_slots_are_taken_by_the_claim(
        before,
        shared.plan().terms.claim,
        after,
        poll,
        arbitrary(),
    );
}

/// Law: filling the last slot wakes whoever waits. If a delivery takes the slots from one that is
/// missing to none, the outcome says so, and the cell is woken when the ledger has been put back.
pub proof fn law_filling_the_last_slot_wakes<T>(
    shared: Shared<T>,
    before: Ledger<T>,
    right: Right,
    k: usize,
    slice: Vec<T>,
    after: Ledger<T>,
    outcome: Result<bool, Vec<T>>,
)
    requires
        shared.delivers(before, right, k, slice, after, outcome),
        before@ is Some,
        missing(before@->0) > 0,
        after@ is Some,
        missing(after@->0) == 0,
    ensures
        missing(before@->0) == 1,
        outcome == Ok::<bool, Vec<T>>(true),
        shared.tells(before, k, slice, after, outcome),
        call_ensures(AtomicWaker::wake, (&shared.cell(),), ()),
{
}

/// Law: a task that runs calls its function once on each of its indices, in ascending order, and
/// on no other. The slice is what came back, each call found the function as the one before had
/// left it, and no call came in between.
pub proof fn law_every_index_is_called_once<T, B>(
    task: SliceTask<T, B>,
    done: SliceTask<T, B>,
    slice: Seq<T>,
) where B: FnMut(usize) -> T
    requires
        task.calls().len() == 0,
        done.has_called(&task, slice),
        task.can_build(slice),
    ensures
        done.calls().len() == task.end() - task.first(),
        forall|j: int|
            0 <= j < done.calls().len() ==> {
                &&& (#[trigger] done.calls()[j]).index == task.first() + j
                &&& *done.calls()[j].element == slice[j]
                &&& j == 0 ==> *done.calls()[j].found == task.build_fn()
                &&& j > 0 ==> *done.calls()[j].found == *done.calls()[j - 1].left
                &&& j == done.calls().len() - 1 ==> *done.calls()[j].left == done.build_fn()
            },
{
    assert forall|j: int| 0 <= j < done.calls().len() implies {
        &&& (#[trigger] done.calls()[j]).index == task.first() + j
        &&& *done.calls()[j].element == slice[j]
        &&& j == 0 ==> *done.calls()[j].found == task.build_fn()
        &&& j > 0 ==> *done.calls()[j].found == *done.calls()[j - 1].left
        &&& j == done.calls().len() - 1 ==> *done.calls()[j].left == done.build_fn()
    } by {
        let element = slice[j];
    }
}

/// Law: a run either does all of its work or none. If it succeeds, the vector was wanted, the
/// function was called on the indices of the task and on no other, what came back was delivered
/// by right of the task, and the task is done. Otherwise the vector was not wanted, nothing was
/// called, and the task is what it was.
pub proof fn law_run_does_all_or_nothing<T, B>() where B: FnMut(usize) -> T
    ensures
        forall|running: &mut SliceTask<T, B>, outcome: Result<(), SliceTaskError>| #[trigger]
            call_ensures(SliceTask::<T, B>::run, (running,), outcome) ==> {
                let shared = running.shared();
                &&& final(running).first() == running.first()
                &&& final(running).end() == running.end()
                &&& final(running).shared() == shared
                &&& outcome is Ok ==> {
                    &&& final(running).completed()
                    &&& final(running).calls().len() == running.calls().len() + running.end()
                        - running.first()
                    &&& exists|
                        slice: Vec<T>,
                        before: Ledger<T>,
                        after: Ledger<T>,
                        delivery: Result<bool, Vec<T>>,
                    |
                        {
                            &&& final(running).has_called(running, slice@)
                            &&& slice@.len() == running.end() - running.first()
                            &&& #[trigger] shared.delivers(
                                before,
                                shared.right(running.index() as usize as int),
                                running.index() as usize,
                                slice,
                                after,
                                delivery,
                            )
                        }
                    &&& exists|seen: Ledger<T>, holders: usize| #[trigger]
                        shared.looks(seen, holders, true) && seen@ is Some && holders > 1
                }
                &&& outcome is Err ==> {
                    &&& *final(running) == *running
                    &&& exists|seen: Ledger<T>, holders: usize| #[trigger]
                        shared.looks(seen, holders, false) && (seen@ is None || holders <= 1)
                }
            },
{
    assert forall|running: &mut SliceTask<T, B>, outcome: Result<(), SliceTaskError>|
        (#[trigger] call_ensures(SliceTask::<T, B>::run, (running,), outcome))
            && outcome is Ok implies exists|
        slice: Vec<T>,
        before: Ledger<T>,
        after: Ledger<T>,
        delivery: Result<bool, Vec<T>>,
    |
        {
            &&& final(running).has_called(running, slice@)
            &&& slice@.len() == running.end() - running.first()
            &&& #[trigger] running.shared().delivers(
                before,
                running.shared().right(running.index() as usize as int),
                running.index() as usize,
                slice,
                after,
                delivery,
            )
        } by {
        let k = running.index() as usize;
        let right = running.right()->0;
        assert forall|
            slice: Vec<T>,
            before: Ledger<T>,
            after: Ledger<T>,
            delivery: Result<bool, Vec<T>>,
        | #[trigger]
            running.shared().delivers(before, right, k, slice, after, delivery) implies right
            == running.shared().right(k as int) by {
            law_filled_slots_stay_filled(
                running.shared(),
                before,
                right,
                k,
                slice,
                after,
                delivery,
            );
        }
    }
}

/// Law: asking for the vector either hands it out or changes nothing. The waker is left in both
/// cases. What is handed out are all slices that were in the lock, none of them missing, and they
/// are gone then. Otherwise the result is what it was, and so is the ledger.
pub proof fn law_poll_hands_out_or_changes_nothing<I>()
    ensures
        forall|polling: &mut VecResult<I>, waker: &Waker, poll: Poll<Vec<I>>| #[trigger]
            call_ensures(VecResult::<I>::poll, (polling, waker), poll) ==> {
                let shared = polling.shared();
                &&& call_ensures(AtomicWaker::register, (&shared.cell(), waker), ())
                &&& poll matches Poll::Ready(vec) ==> final(polling).completed() && exists|
                    before: Ledger<I>,
                    after: Ledger<I>,
                |
                    {
                        &&& #[trigger] shared.passes(before, after)
                        &&& before@ is Some
                        &&& missing(before@->0) == 0
                        &&& vec@ == joined(before@->0)
                        &&& after@ is None
                    }
                &&& poll is Pending ==> *final(polling) == *polling && exists|seen: Ledger<I>|
                    {
                        &&& #[trigger] shared.passes(seen, seen)
                        &&& seen@ is None || missing(seen@->0) > 0
                    }
            },
{
    assert forall|polling: &mut VecResult<I>, waker: &Waker, poll: Poll<Vec<I>>| #[trigger]
        call_ensures(VecResult::<I>::poll, (polling, waker), poll) implies call_ensures(
        AtomicWaker::register,
        (&polling.shared().cell(), waker),
        (),
    ) by {
        let claim = polling.claim()->0;
        assert forall|
            before: Ledger<I>,
            after: Ledger<I>,
            answer: Poll<Vec<Option<Vec<I>>>>,
        | #[trigger] claim.asks(waker, before, after, answer) implies call_ensures(
            AtomicWaker::register,
            (&claim.shared().cell(), waker),
            (),
        ) by {
            law_waker_comes_first(claim, waker, before, after, answer);
        }
    }
}

/// Law: the work is divided as the strategy says. A new build has one task, as many as asked for,
/// one for each element, or a multiple of the number of cores, but never more than elements. Task
/// `k` has the range that follows those of the tasks before, none of them is done, and all of them
/// are outstanding.
pub proof fn law_build_vec_divides_the_work<R, B>(
    len: usize,
    strategy: Strategy,
    f: B,
    builder: VecBuilder<R, B>,
) where B: FnMut(usize) -> R + Clone
    requires
        call_ensures(build_vec::<R, B>, (len, strategy, f), builder),
    ensures
        match strategy {
            Strategy::One => builder.builds(len as nat, at_most(1, len as nat), f),
            Strategy::Tasks(n) => builder.builds(len as nat, at_most(n as nat, len as nat), f),
            Strategy::Max => builder.builds(len as nat, len as nat, f),
            Strategy::TasksPerCore(n) => exists|cores: usize|
                {
                    &&& #[trigger] call_ensures(num_cpus::get, (), cores)
                    &&& builder.builds(
                        len as nat,
                        at_most(n as nat * cores as nat, len as nat),
                        f,
                    )
                },
        },
        builder.tasks@.len() <= len,
        len > 0 ==> builder.tasks@.len() > 0,
        forall|k: int|
            0 <= k < builder.tasks@.len() ==> {
                let n = builder.tasks@.len();
                let task = #[trigger] builder.tasks@[k];
                &&& task.first() == k * (len as nat / n)
                &&& task.end() == if k + 1 == n {
                    len as int
                } else {
                    (k + 1) * (len as nat / n)
                }
                &&& !task.completed()
                &&& task.calls().len() == 0
                &&& task.shared() == builder.result.shared()
                &&& strictly_cloned(f, task.build_fn())
            },
        !builder.result.completed(),
        builder.result.shared().located(),
        exists|first: Ledger<R>|
            {
                &&& #[trigger] call_ensures(
                    RwLock::<Ledger<R>, Plan<R>>::new,
                    (first, Ghost(builder.result.plan())),
                    builder.result.shared().lock(),
                )
                &&& first@ is Some
                &&& missing(first@->0) == builder.tasks@.len()
                &&& first@->0.len() == builder.tasks@.len()
            },
{
    let n = builder.tasks@.len();
    assert(builder.builds(len as nat, n, f));
    assert forall|k: int| 0 <= k < n implies {
        let task = #[trigger] builder.tasks@[k];
        &&& task.first() == k * (len as nat / n)
        &&& task.end() == if k + 1 == n {
            len as int
        } else {
            (k + 1) * (len as nat / n)
        }
        &&& !task.completed()
        &&& task.calls().len() == 0
        &&& task.shared() == builder.result.shared()
        &&& strictly_cloned(f, task.build_fn())
    } by {
        assert(is_planned(
            builder.tasks@[k],
            builder.result.shared(),
            len as nat,
            n,
            f,
            k,
        ));
    }
}

/// Law: giving up uses the claim. Whatever had been delivered is gone then.
pub proof fn law_giving_up_makes_it_gone<I>()
    ensures
        forall|giving: &mut VecResult<I>| #[trigger]
            call_ensures(VecResult::<I>::abandon, (giving,), ()) ==> {
                &&& final(giving).completed()
                &&& !giving.completed() ==> exists|before: Ledger<I>, after: Ledger<I>| #[trigger]
                    giving.shared().passes(before, after) && after@ is None
            },
{
}

/// Law: polling a task is running it. It is never pending.
pub proof fn law_polling_is_running<T, B>() where B: FnMut(usize) -> T
    ensures
        forall|polling: &mut SliceTask<T, B>, poll: Poll<Result<(), SliceTaskError>>| #[trigger]
            call_ensures(SliceTask::<T, B>::poll, (polling,), poll) ==> exists|
                running: &mut SliceTask<T, B>,
                outcome: Result<(), SliceTaskError>,
            |
                {
                    &&& *running == *polling
                    &&& *final(running) == *final(polling)
                    &&& #[trigger] call_ensures(SliceTask::<T, B>::run, (running,), outcome)
                    &&& poll == Poll::Ready(outcome)
                },
{
}

/// Law: an executor gets all tasks of a build in order, under labels that differ, and the result
/// to wait for.
pub proof fn law_executors_get_all_tasks<I, B>(
    builder: VecBuilder<I, B>,
    parts: (Vec<(String, SliceTask<I, B>)>, VecResult<I>),
)
    requires
        call_ensures(VecBuilder::<I, B>::into_labelled_tasks, (builder,), parts),
    ensures
        parts.1 == builder.result,
        parts.0@.len() == builder.tasks@.len(),
        forall|t: int|
            0 <= t < parts.0@.len() ==> (#[trigger] parts.0@[t]).1 == builder.tasks@[t],
        forall|s: int, t: int|
            0 <= s < t < parts.0@.len() ==> (#[trigger] parts.0@[s]).0@ != (#[trigger]
            parts.0@[t]).0@,
{
    assert forall|s: int, t: int| 0 <= s < t < parts.0@.len() implies (#[trigger]
    parts.0@[s]).0@ != (#[trigger] parts.0@[t]).0@ by {
        if label_of(s as nat) == label_of(t as nat) {
            law_labels_differ(s as nat, t as nat);
        }
    }
}

/// Law: a task tells what it is: its range, whether it is done, and what it feeds a hasher.
pub proof fn law_tasks_tell_what_they_are<T, B>(
    task: SliceTask<T, B>,
    start: usize,
    past_end: usize,
    complete: bool,
    words: [usize; 3],
)
    requires
        call_ensures(SliceTask::<T, B>::start, (&task,), start),
        call_ensures(SliceTask::<T, B>::past_end, (&task,), past_end),
        call_ensures(SliceTask::<T, B>::is_complete, (&task,), complete),
        call_ensures(SliceTask::<T, B>::hash_input, (&task,), words),
    ensures
        start == task.first(),
        past_end == task.end(),
        complete == task.completed(),
        words@ == seq![start, past_end, task.shared().origin()],
{
}

} // verus!
