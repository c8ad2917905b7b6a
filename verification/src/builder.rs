//! Planning a build.

use crate::label::{label_of, task_label};
use crate::partition::bound;
use crate::recorded::Call;
use crate::result::VecResult;
use crate::shared::Shared;
use crate::strategy::{law_some_task_and_no_idle_one, Strategy};
use crate::task::SliceTask;
use vstd::pervasive::strictly_cloned;
use vstd::prelude::*;

verus! {

/// Whether some clone of `f` returns `x` for index `i`. What a function with state returns may
/// depend on the calls before: then this is what it returns after some of them.
pub open spec fn produces<R, B>(f: B, i: int, x: R) -> bool where B: FnMut(usize) -> R + Clone {
    exists|g: B| strictly_cloned(f, g) && #[trigger] call_ensures(g, (i as usize,), x)
}

/// Whether `task` is number `k` of a new build of `len` elements of `f` by `tasks` tasks: it is not
/// done, it has the right to its slot, a clone of `f` that has not been called, and the range that
/// is due to it.
pub open spec fn is_planned<R, B>(
    task: SliceTask<R, B>,
    shared: Shared<R>,
    len: nat,
    tasks: nat,
    f: B,
    k: int,
) -> bool where B: FnMut(usize) -> R + Clone {
    &&& task.wf()
    &&& !task.completed()
    &&& task.shared() == shared
    &&& task.index() == k
    &&& task.first() == bound(len, tasks, k)
    &&& task.end() == bound(len, tasks, k + 1)
    &&& strictly_cloned(f, task.build_fn())
    &&& task.calls() == Seq::<Call<R, B>>::empty()
}

/// Contains the tasks and the result for building a vector in parallel.
///
/// A `VecBuilder` is created by [`build_vec`] and contains:
/// - `tasks`: Individual tasks that build portions of the vector
/// - `result`: Where the completed vector comes from
///
/// # Usage Pattern
///
/// 1. Create a builder with [`build_vec`]
/// 2. Run the tasks (potentially on different threads)
/// 3. Poll the result to get the final vector
#[verifier::reject_recursive_types(I)]
#[verifier::reject_recursive_types(B)]
pub struct VecBuilder<I, B> {
    /// The individual tasks that build portions of the vector.
    pub tasks: Vec<SliceTask<I, B>>,
    /// Where the completed vector comes from.
    pub result: VecResult<I>,
}

impl<I, B> VecBuilder<I, B> where B: FnMut(usize) -> I + Clone {
    /// Whether this is a new build of `len` elements of `f` by `tasks` tasks: all of them share
    /// one plan and are outstanding, none of them is done, and task `k` has a clone of `f` and the
    /// range that is due to it.
    pub open spec fn builds(&self, len: nat, tasks: nat, f: B) -> bool {
        &&& tasks <= len <= usize::MAX
        &&& len > 0 ==> tasks > 0
        &&& self.tasks@.len() == tasks
        &&& self.result.wf()
        &&& !self.result.completed()
        &&& self.result.shared().begun(tasks)
        &&& self.result.plan().wf()
        &&& self.result.plan().len == len
        &&& self.result.plan().tasks == tasks
        &&& forall|i: int, x: I| #[trigger]
            (self.result.plan().built)(i, x) == produces(f, i, x)
        &&& forall|k: int|
            0 <= k < tasks ==> is_planned(
                #[trigger] self.tasks@[k],
                self.result.shared(),
                len,
                tasks,
                f,
                k,
            )
    }
}

/// Creates a builder for `len` elements on `cores` cores.
///
/// See [`build_vec`], which asks the machine for the number of its cores.
pub fn build_vec_on<R, B>(len: usize, strategy: Strategy, f: B, cores: usize) -> (builder:
    VecBuilder<R, B>) where B: FnMut(usize) -> R + Clone
    requires
        len == 0 || strategy.asks_for_work(),
        cores > 0,
    ensures
        builder.builds(len as nat, strategy.task_count_spec(len as nat, cores as nat), f),
{
    let tasks: usize = strategy.task_count(len, cores);
    proof {
        law_some_task_and_no_idle_one(strategy, len as nat, cores as nat);
    }
    let ghost built = |i: int, x: R| produces(f, i, x);
    let (shared, claim, rights) = Shared::begin(tasks, Ghost(len as nat), Ghost(built));
    let mut task_vec: Vec<SliceTask<R, B>> = Vec::with_capacity(tasks);
    let mut k: usize = 0;
    for right in it: rights
        invariant
            it.seq() == shared.plan().terms.rights,
            it.seq().len() == tasks,
            k == it.index(),
            tasks <= len,
            len > 0 ==> tasks > 0,
            shared.plan().len == len,
            shared.plan().tasks == tasks,
            shared.plan().built == built,
            built == (|i: int, x: R| produces(f, i, x)),
            task_vec@.len() == k,
            forall|j: int|
                0 <= j < k ==> is_planned(
                    #[trigger] task_vec@[j],
                    *shared,
                    len as nat,
                    tasks as nat,
                    f,
                    j,
                ),
    {
        let build = f.clone();
        assert forall|i: usize, x: R| i < len && #[trigger] call_ensures(build, (i,), x) implies (
        shared.plan().built)(i as int, x) by {
            assert(strictly_cloned(f, build) && call_ensures(build, (i as int as usize,), x));
        }
        task_vec.push(SliceTask::new(build, shared.clone(), right, len, tasks, k));
        k = k + 1;
    }
    let result = VecResult::new(shared, claim, len);
    VecBuilder { tasks: task_vec, result }
}

impl<I, B> VecBuilder<I, B> {
    /// Takes the builder apart for an executor: the tasks in order, each with the label under
    /// which it is spawned, and the result to wait for.
    pub fn into_labelled_tasks(self) -> (parts: (Vec<(String, SliceTask<I, B>)>, VecResult<I>))
        ensures
            parts.0@.len() == self.tasks@.len(),
            forall|t: int|
                0 <= t < parts.0@.len() ==> (#[trigger] parts.0@[t]).1 == self.tasks@[t]
                    && parts.0@[t].0@ == label_of(t as nat),
            parts.1 == self.result,
    {
        let VecBuilder { tasks, result } = self;
        let mut labelled: Vec<(String, SliceTask<I, B>)> = Vec::with_capacity(tasks.len());
        let ghost all = tasks@;
        let mut t: usize = 0;
        for task in it: tasks
            invariant
                it.seq() == all,
                t == it.index(),
                all.len() <= usize::MAX,
                labelled@.len() == t,
                forall|j: int|
                    0 <= j < t ==> (#[trigger] labelled@[j]).1 == all[j] && labelled@[j].0@
                        == label_of(j as nat),
        {
            labelled.push((task_label(t), task));
            t = t + 1;
        }
        (labelled, result)
    }
}

/// Creates a builder for constructing a vector in parallel.
///
/// This function divides the work of building a vector into multiple tasks
/// based on the specified strategy. Each task computes elements for a range of
/// indices using its own clone of the provided closure. There is no task for an
/// empty vector, which is there from the start.
///
/// # Arguments
///
/// * `len` - The length of the vector to create
/// * `strategy` - How to divide the work among tasks
/// * `f` - A closure that computes the element at a given index
pub fn build_vec<R, B>(len: usize, strategy: Strategy, f: B) -> (builder: VecBuilder<R, B>) where
    B: FnMut(usize) -> R + Clone,

    requires
        len == 0 || strategy.asks_for_work(),
    ensures
        strategy !is TasksPerCore ==> builder.builds(
            len as nat,
            strategy.task_count_spec(len as nat, 1),
            f,
        ),
        strategy is TasksPerCore ==> exists|cores: usize|
            {
                &&& #[trigger] call_ensures(num_cpus::get, (), cores)
                &&& builder.builds(
                    len as nat,
                    strategy.task_count_spec(len as nat, cores as nat),
                    f,
                )
            },
{
    // Only one strategy looks at the cores.
    let cores: usize = match strategy {
        Strategy::TasksPerCore(_) => num_cpus::get(),
        _ => 1,
    };
    build_vec_on(len, strategy, f, cores)
}

} // verus!
