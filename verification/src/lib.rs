//! Building vectors in parallel.
//!
//! [`build_vec`] divides the work of building a `Vec<T>` among several [`SliceTask`]s, which can
//! run concurrently and in any order. This is particularly useful for CPU-bound initialization,
//! where elements can be computed independently. The [`VecResult`] that comes with the tasks
//! hands the vector out once the last of them is done.
//!
//! - [`strategy`] says how many tasks there are.
//! - [`partition`] says which indices each of them gets.
//! - [`progress`] is the state that the tasks and the result share: a slot for the slice of each
//!   task, and the count of the tasks that are not done yet.
//! - [`ledger`] is that state together with the [rights](right) that say who may change it.
//! - [`plan`] says what may stand in the slots. It is the invariant of the lock in [`shared`].
//! - [`recorded`] is the function of a task with all calls of it, which take [permits](permit).
//! - [`bell`] wakes whoever waits for the vector.
//! - [`task`], [`result`] and [`builder`] are what callers use.
//! - [`laws`] holds what is true of a build as a whole.

pub mod bell;
pub mod builder;
pub mod label;
pub mod laws;
pub mod ledger;
mod outside;
pub mod partition;
pub mod permit;
pub mod plan;
pub mod progress;
pub mod recorded;
pub mod result;
pub mod right;
pub mod shared;
pub mod strategy;
pub mod task;

pub use builder::{build_vec, build_vec_on, VecBuilder};
pub use result::VecResult;
pub use strategy::Strategy;
pub use task::{SliceTask, SliceTaskError};
