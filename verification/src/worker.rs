//! Workers as the pool records them: a stable id and a place in the worker's
//! life cycle.

use vstd::prelude::*;

verus! {

/// Where a worker stands in its life cycle.
///
/// A worker starts `Idle`, alternates between `Idle` and `Busy` while jobs
/// arrive, and becomes `Exited` when it finds the queue closed and empty.
/// Teardown then waits for its thread and records `Joined`, or `Panicked` if
/// the thread ended in a panic.
#[derive(Clone, Copy, Debug, PartialEq, Eq, Structural)]
pub enum WorkerStatus {
    /// Waiting for the next job.
    Idle,
    /// Running a job it took from the queue.
    Busy,
    /// Left its loop after finding the queue closed and empty.
    Exited,
    /// Waited for by teardown; its thread ended normally.
    Joined,
    /// Waited for by teardown; its thread had panicked.
    Panicked,
}

/// One worker of a pool.
#[derive(Clone, Copy, Debug, PartialEq, Eq, Structural)]
pub struct Worker {
    /// Position of the worker in creation order, counted from zero.
    pub id: usize,
    /// Where the worker stands in its life cycle.
    pub status: WorkerStatus,
}

} // verus!
