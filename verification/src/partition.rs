//! How the indices of a vector are divided among tasks.
//!
//! `len` indices are given to `tasks` tasks in order. Every task gets `len / tasks` consecutive
//! indices, and the last one gets what remains as well.

use vstd::arithmetic::div_mod::{
    lemma_div_by_self, lemma_div_non_zero, lemma_fundamental_div_mod,
};
use vstd::arithmetic::mul::{
    lemma_mul_basics, lemma_mul_inequality, lemma_mul_is_commutative, lemma_mul_is_distributive_add_other_way,
};
use vstd::prelude::*;

verus! {

/// The number of indices that every task but the last one gets.
pub open spec fn chunk_len(len: nat, tasks: nat) -> nat {
    len / tasks
}

/// The first index of task `k`. For `k == tasks` it is the end of the last task.
pub open spec fn bound(len: nat, tasks: nat, k: int) -> int {
    if k == tasks {
        len as int
    } else {
        k * chunk_len(len, tasks)
    }
}

/// Whether index `i` belongs to task `k`.
pub open spec fn owns(len: nat, tasks: nat, k: int, i: int) -> bool {
    &&& 0 <= k < tasks
    &&& bound(len, tasks, k) <= i < bound(len, tasks, k + 1)
}

/// The bounds never decrease, start at zero and stay within the vector. Every task has at least
/// `chunk_len` indices.
pub proof fn lemma_bounds(len: nat, tasks: nat, k: int)
    requires
        0 < tasks,
        0 <= k < tasks,
    ensures
        bound(len, tasks, 0) == 0,
        0 <= bound(len, tasks, k) <= bound(len, tasks, k + 1) <= len,
        bound(len, tasks, k) + chunk_len(len, tasks) <= bound(len, tasks, k + 1),
        k + 1 < tasks ==> bound(len, tasks, k) + chunk_len(len, tasks) == bound(len, tasks, k + 1),
        k * chunk_len(len, tasks) + chunk_len(len, tasks) <= len,
{
    let chunk = chunk_len(len, tasks) as int;
    lemma_fundamental_div_mod(len as int, tasks as int);
    lemma_mul_is_commutative(tasks as int, chunk);
    lemma_mul_inequality(k + 1, tasks as int, chunk);
    lemma_mul_inequality(0, k, chunk);
    lemma_mul_is_distributive_add_other_way(chunk, k, 1);
}

/// Bounds are ordered as their tasks are.
pub proof fn lemma_bounds_monotonic(len: nat, tasks: nat, j: int, k: int)
    requires
        0 < tasks,
        0 <= j <= k <= tasks,
    ensures
        bound(len, tasks, j) <= bound(len, tasks, k),
    decreases k - j,
{
    if j < k {
        lemma_bounds(len, tasks, k - 1);
        lemma_bounds_monotonic(len, tasks, j, k - 1);
    }
}

/// The first index of task `k` among `tasks` that share `len` indices.
pub fn slice_start(len: usize, tasks: usize, k: usize) -> (start: usize)
    requires
        k < tasks,
    ensures
        start == bound(len as nat, tasks as nat, k as int),
{
    proof {
        lemma_bounds(len as nat, tasks as nat, k as int);
    }
    let chunk: usize = len / tasks;
    k * chunk
}

/// The index past the end of task `k` among `tasks` that share `len` indices.
pub fn slice_end(len: usize, tasks: usize, k: usize) -> (past_end: usize)
    requires
        k < tasks,
    ensures
        past_end == bound(len as nat, tasks as nat, k + 1),
{
    proof {
        lemma_bounds(len as nat, tasks as nat, k as int);
    }
    if k + 1 == tasks {
        len
    } else {
        let chunk: usize = len / tasks;
        slice_start(len, tasks, k) + chunk
    }
}

/// Law: no task is idle. With no more tasks than indices, each task has an index.
pub proof fn law_no_task_is_idle(len: nat, tasks: nat, k: int)
    requires
        0 <= k < tasks <= len,
    ensures
        bound(len, tasks, k) < bound(len, tasks, k + 1),
{
    lemma_bounds(len, tasks, k);
    lemma_div_non_zero(len as int, tasks as int);
}

/// Law: the tasks cover the vector. Every index belongs to some task.
pub proof fn law_every_index_is_owned(len: nat, tasks: nat, i: int)
    requires
        0 < tasks,
        0 <= i < len,
    ensures
        exists|k: int| owns(len, tasks, k, i),
{
    lemma_owner_from(len, tasks, i, 0);
}

/// The owner of `i` is found among the tasks from `k` on, if it starts at `k` or later.
proof fn lemma_owner_from(len: nat, tasks: nat, i: int, k: int)
    requires
        0 <= k < tasks,
        bound(len, tasks, k) <= i < len,
    ensures
        exists|m: int| owns(len, tasks, m, i),
    decreases tasks - k,
{
    if i < bound(len, tasks, k + 1) {
        assert(owns(len, tasks, k, i));
    } else {
        lemma_owner_from(len, tasks, i, k + 1);
    }
}

/// Law: the tasks do not overlap. No index belongs to two tasks.
pub proof fn law_slices_are_disjoint(len: nat, tasks: nat, i: int, j: int, k: int)
    requires
        owns(len, tasks, j, i),
        owns(len, tasks, k, i),
    ensures
        j == k,
{
    if j < k {
        lemma_bounds_monotonic(len, tasks, j + 1, k);
    } else if k < j {
        lemma_bounds_monotonic(len, tasks, k + 1, j);
    }
}

/// Law: an owned index lies in the vector.
pub proof fn law_owned_indices_exist(len: nat, tasks: nat, k: int, i: int)
    requires
        owns(len, tasks, k, i),
    ensures
        0 <= i < len,
{
    lemma_bounds(len, tasks, k);
}

/// Law: the work is divided evenly. Every task but the last one has `len / tasks` indices, and
/// the last one has `len % tasks` more, which is fewer than one index for every task.
pub proof fn law_work_is_even(len: nat, tasks: nat, k: int)
    requires
        0 <= k < tasks,
    ensures
        bound(len, tasks, k + 1) - bound(len, tasks, k) == len / tasks + if k + 1 == tasks {
            (len % tasks) as int
        } else {
            0
        },
        len % tasks < tasks,
{
    lemma_bounds(len, tasks, k);
    lemma_fundamental_div_mod(len as int, tasks as int);
    let chunk = chunk_len(len, tasks) as int;
    lemma_mul_is_commutative(tasks as int, chunk);
    lemma_mul_is_distributive_add_other_way(chunk, k, 1);
}

/// Law: with one task per index, task `k` has index `k` and no other.
pub proof fn law_one_task_per_index(len: nat, k: int)
    requires
        0 <= k < len,
    ensures
        bound(len, len, k) == k,
        bound(len, len, k + 1) == k + 1,
{
    lemma_div_by_self(len as int);
    lemma_mul_basics(k);
    lemma_mul_basics(k + 1);
}

/// Law: every task starts where `len / tasks` indices for each task before end, and the last one
/// ends with the vector.
pub proof fn law_tasks_get_chunks(len: usize, tasks: usize, k: usize, start: usize, past_end: usize)
    requires
        k < tasks,
        call_ensures(slice_start, (len, tasks, k), start),
        call_ensures(slice_end, (len, tasks, k), past_end),
    ensures
        start == k * (len / tasks),
        past_end == if k + 1 == tasks {
            len as int
        } else {
            (k + 1) * (len / tasks)
        },
{
}

} // verus!
