//! How many tasks share the work.

use vstd::prelude::*;

verus! {

/// Determines how work is divided among parallel tasks.
///
/// The strategy controls how many tasks are created to build the vector.
/// Different strategies are optimal for different workloads.
#[derive(Debug, Clone, Copy, PartialEq, Eq, Hash)]
#[non_exhaustive]
pub enum Strategy {
    /// Creates a single task to build the entire vector.
    ///
    /// This effectively disables parallelism and is equivalent to
    /// building the vector sequentially.
    One,
    /// Creates exactly the specified number of tasks.
    ///
    /// The work is divided evenly among the tasks. If the number of tasks
    /// exceeds the number of elements, it is automatically reduced.
    Tasks(usize),
    /// Creates one task per element (maximum parallelism).
    ///
    /// This strategy provides the finest granularity but may have
    /// higher overhead for simple computations.
    Max,
    /// Creates a number of tasks based on the CPU core count.
    ///
    /// The total number of tasks is `cores * multiplier`. This is ideal
    /// for CPU-bound workloads. Common multipliers are 4-8 for balanced
    /// performance.
    TasksPerCore(usize),
}

/// The smaller of two numbers.
pub open spec fn at_most(n: nat, limit: nat) -> nat {
    if n <= limit {
        n
    } else {
        limit
    }
}

impl Strategy {
    /// The number of tasks that the strategy asks for, for `len` elements on `cores` cores.
    pub open spec fn requested_tasks(self, len: nat, cores: nat) -> nat {
        match self {
            Strategy::One => 1,
            Strategy::Tasks(tasks) => tasks as nat,
            Strategy::Max => len,
            Strategy::TasksPerCore(tasks_per_core) => tasks_per_core as nat * cores,
        }
    }

    /// The number of tasks that are created: what the strategy asks for, but no more than there
    /// are elements.
    pub open spec fn task_count_spec(self, len: nat, cores: nat) -> nat {
        at_most(self.requested_tasks(len, cores), len)
    }

    /// Whether the strategy asks for any task at all. A multiplicity of zero does not.
    pub open spec fn asks_for_work(self) -> bool {
        match self {
            Strategy::One => true,
            Strategy::Tasks(tasks) => tasks > 0,
            Strategy::Max => true,
            Strategy::TasksPerCore(tasks_per_core) => tasks_per_core > 0,
        }
    }

    /// Whether [`build_vec`](crate::build_vec) accepts the strategy for `len` elements: if there
    /// is work, the strategy asks for a task to do it.
    pub fn accepts(self, len: usize) -> (accepted: bool)
        ensures
            accepted == (len == 0 || self.asks_for_work()),
    {
        match self {
            Strategy::One => true,
            Strategy::Tasks(tasks) => len == 0 || tasks > 0,
            Strategy::Max => true,
            Strategy::TasksPerCore(tasks_per_core) => len == 0 || tasks_per_core > 0,
        }
    }

    /// The number of tasks that are created for `len` elements on `cores` cores.
    pub fn task_count(self, len: usize, cores: usize) -> (tasks: usize)
        ensures
            tasks == self.task_count_spec(len as nat, cores as nat),
    {
        let requested: usize = match self {
            Strategy::One => 1,
            Strategy::Tasks(tasks) => tasks,
            Strategy::Max => len,
            Strategy::TasksPerCore(tasks_per_core) => match tasks_per_core.checked_mul(cores) {
                Some(tasks) => tasks,
                // More tasks than a `usize` can count are more than there are elements.
                None => len,
            },
        };
        if requested > len {
            len
        } else {
            requested
        }
    }
}

/// Law: a strategy that asks for work gets a task for every vector that is not empty, and never
/// more tasks than the vector has elements. So there is no task for an empty vector.
pub proof fn law_some_task_and_no_idle_one(strategy: Strategy, len: nat, cores: nat)
    requires
        len == 0 || strategy.asks_for_work(),
        cores > 0,
    ensures
        strategy.task_count_spec(len, cores) <= len,
        len > 0 ==> strategy.task_count_spec(len, cores) > 0,
{
    if let Strategy::TasksPerCore(tasks_per_core) = strategy {
        assert(tasks_per_core > 0 ==> tasks_per_core as nat * cores > 0) by (nonlinear_arith)
            requires
                cores > 0,
        ;
    }
}

/// Law: `One` is `Tasks(1)`, `Max` is one task per element, more tasks than elements are as many
/// as there are elements, and `TasksPerCore` is the multiple of the number of cores, or again as
/// many as there are elements. Only `TasksPerCore` looks at the cores.
pub proof fn law_strategies_are_task_numbers(len: usize, n: usize, cores: nat, other: nat)
    ensures
        Strategy::One.task_count_spec(len as nat, cores) == Strategy::Tasks(1).task_count_spec(
            len as nat,
            cores,
        ),
        Strategy::Max.task_count_spec(len as nat, cores) == Strategy::Tasks(len).task_count_spec(
            len as nat,
            cores,
        ),
        n > len ==> Strategy::Tasks(n).task_count_spec(len as nat, cores) == len,
        n <= len ==> Strategy::Tasks(n).task_count_spec(len as nat, cores) == n,
        n * cores <= len ==> Strategy::TasksPerCore(n).task_count_spec(len as nat, cores) == n
            * cores,
        n * cores > len ==> Strategy::TasksPerCore(n).task_count_spec(len as nat, cores) == len,
        Strategy::Tasks(n).task_count_spec(len as nat, cores) == Strategy::Tasks(n).task_count_spec(
            len as nat,
            other,
        ),
{
}

/// Law: a strategy is accepted if it gets a task for what is to be built, and if there is nothing
/// to build.
pub proof fn law_accepted_strategies_get_a_task(
    strategy: Strategy,
    len: usize,
    cores: usize,
    accepted: bool,
    tasks: usize,
)
    requires
        cores > 0,
        call_ensures(Strategy::accepts, (strategy, len), accepted),
        call_ensures(Strategy::task_count, (strategy, len, cores), tasks),
    ensures
        accepted <==> len == 0 || tasks > 0,
        accepted <==> len == 0 || strategy.asks_for_work(),
        tasks <= len,
        match strategy {
            Strategy::One => len > 0 ==> tasks == 1,
            Strategy::Tasks(n) => n <= len ==> tasks == n,
            Strategy::Max => tasks == len,
            Strategy::TasksPerCore(n) => n * cores <= len ==> tasks == n * cores,
        },
        match strategy {
            Strategy::Tasks(n) => n > len ==> tasks == len,
            Strategy::TasksPerCore(n) => n * cores > len ==> tasks == len,
            _ => true,
        },
{
    if let Strategy::TasksPerCore(n) = strategy {
        assert(n as nat * cores as nat == 0 <==> n == 0) by (nonlinear_arith)
            requires
                cores > 0,
        ;
    }
}

} // verus!
