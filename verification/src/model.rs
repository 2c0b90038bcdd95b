//! The pool as a state machine over mathematical values.
//!
//! A [`PoolView`] holds what can be observed of a pool (its workers, whether
//! it accepts work, how far teardown has come) together with its history:
//! every job it ever accepted and, for each job handed to a worker, which
//! worker took it and what became of it. The transitions below say how each
//! event changes that state.

use crate::worker::{Worker, WorkerStatus};
use vstd::prelude::*;

verus! {

/// The three phases in the life of a pool.
#[derive(Clone, Copy, Debug, PartialEq, Eq, Structural)]
pub enum PoolState {
    /// Submissions are queued.
    Accepting,
    /// Teardown has begun: submissions are rejected, queued jobs still run,
    /// and some worker has not been waited for yet.
    Draining,
    /// Every worker has been waited for.
    Terminated,
}

/// What a worker that asked for its next job has to do.
#[derive(Debug, PartialEq, Eq)]
pub enum Step<J> {
    /// Run this job to completion, outside any lock, then report back.
    Run(J),
    /// Nothing is pending but more may come: wait and ask again.
    Wait,
    /// Nothing is pending and nothing will come: leave the loop for good.
    Exit,
}

/// Why the pool refused an event.
#[derive(Clone, Copy, Debug, PartialEq, Eq, Structural)]
pub enum PoolError {
    /// A job was submitted after teardown had begun.
    ShutDown,
    /// The id names no worker of this pool.
    UnknownWorker,
    /// A worker asked for a job while it was not idle.
    NotIdle,
    /// A worker reported the end of a job while it was not running one.
    NotBusy,
    /// A worker was reported as waited for while the pool was accepting
    /// work, or after every worker had been waited for.
    NotDraining,
    /// A worker's thread was reported to have ended normally although the
    /// worker has not left its loop.
    StillRunning,
}

/// What became of a job after a worker took it.
pub enum Outcome {
    /// The worker is still running it.
    Running,
    /// The worker ran it to completion.
    Completed,
    /// The worker's thread panicked while it held the job.
    Abandoned,
}

/// The record of one job having been handed to a worker.
pub struct JobRun {
    /// Id of the worker that took the job.
    pub worker: nat,
    /// What became of the job.
    pub outcome: Outcome,
}

/// The abstract state of a pool.
pub struct PoolView<J> {
    /// The workers, in creation order.
    pub workers: Seq<Worker>,
    /// For each worker, the index in `jobs` of the job it took last. It is
    /// meaningful only while the worker is busy.
    pub current: Seq<nat>,
    /// Whether the producer side of the queue is still held.
    pub accepting: bool,
    /// Number of workers that teardown has waited for, in creation order.
    pub joined: nat,
    /// Every job the pool accepted, in submission order.
    pub jobs: Seq<J>,
    /// One record per job handed to a worker: `runs[i]` tells about `jobs[i]`.
    pub runs: Seq<JobRun>,
}

impl<J> PoolView<J> {
    /// The state of a fresh pool of `size` workers.
    pub open spec fn init(size: nat) -> Self {
        PoolView {
            workers: Seq::new(size, |i: int| Worker { id: i as usize, status: WorkerStatus::Idle }),
            current: Seq::new(size, |i: int| 0nat),
            accepting: true,
            joined: 0,
            jobs: Seq::empty(),
            runs: Seq::empty(),
        }
    }

    /// Number of workers.
    pub open spec fn size(self) -> nat {
        self.workers.len()
    }

    /// Number of jobs handed to workers so far.
    pub open spec fn started(self) -> nat {
        self.runs.len()
    }

    /// The accepted jobs that no worker has taken yet, oldest first.
    pub open spec fn pending(self) -> Seq<J> {
        self.jobs.skip(self.runs.len() as int)
    }

    /// The phase the pool is in.
    pub open spec fn state(self) -> PoolState {
        if self.accepting {
            PoolState::Accepting
        } else if self.joined < self.workers.len() {
            PoolState::Draining
        } else {
            PoolState::Terminated
        }
    }

    /// Whether `id` names a worker in the given status.
    pub open spec fn worker_is(self, id: int, status: WorkerStatus) -> bool {
        0 <= id < self.workers.len() && self.workers[id].status == status
    }

    /// The workers with the status of worker `id` replaced.
    pub open spec fn with_status(self, id: int, status: WorkerStatus) -> Seq<Worker> {
        self.workers.update(id, Worker { id: self.workers[id].id, status })
    }

    /// What holds of worker `w` in every reachable state.
    pub open spec fn worker_inv(self, w: int) -> bool {
        let status = self.workers[w].status;
        &&& self.workers[w].id == w
        &&& (status is Joined || status is Panicked) <==> w < self.joined
        &&& (status is Exited || status is Joined) ==> !self.accepting && self.runs.len()
            == self.jobs.len()
        &&& status is Busy ==> self.current[w] < self.runs.len() && self.runs[self.current[w] as int]
            == (JobRun { worker: w as nat, outcome: Outcome::Running })
    }

    /// What holds of the record `runs[i]` in every reachable state.
    pub open spec fn run_inv(self, i: int) -> bool {
        let run = self.runs[i];
        &&& run.worker < self.workers.len()
        &&& run.outcome is Running ==> self.workers[run.worker as int].status is Busy
            && self.current[run.worker as int] == i
        &&& run.outcome is Abandoned ==> self.workers[run.worker as int].status is Panicked
    }

    /// The invariant of the state machine: it holds initially and every
    /// transition keeps it.
    pub open spec fn inv(self) -> bool {
        &&& self.workers.len() >= 1
        &&& self.current.len() == self.workers.len()
        &&& self.joined <= self.workers.len()
        &&& self.accepting ==> self.joined == 0
        &&& self.runs.len() <= self.jobs.len()
        &&& forall|w: int| 0 <= w < self.workers.len() ==> #[trigger] self.worker_inv(w)
        &&& forall|i: int| 0 <= i < self.runs.len() ==> #[trigger] self.run_inv(i)
    }

    /// A submission: an accepting pool appends the job to its history, any
    /// other pool stays as it is.
    pub open spec fn submit(self, job: J) -> Self {
        if self.accepting {
            PoolView { jobs: self.jobs.push(job), ..self }
        } else {
            self
        }
    }

    /// The start of teardown: the producer side is released.
    pub open spec fn close(self) -> Self {
        PoolView { accepting: false, ..self }
    }

    /// Whether worker `id` may take a job: it is idle and a job is pending.
    pub open spec fn can_take(self, id: int) -> bool {
        self.worker_is(id, WorkerStatus::Idle) && self.runs.len() < self.jobs.len()
    }

    /// Worker `id` takes the oldest pending job.
    pub open spec fn take(self, id: int) -> Self {
        PoolView {
            workers: self.with_status(id, WorkerStatus::Busy),
            current: self.current.update(id, self.runs.len()),
            runs: self.runs.push(JobRun { worker: id as nat, outcome: Outcome::Running }),
            ..self
        }
    }

    /// Whether worker `id` may leave its loop: it is idle, nothing is pending
    /// and the producer side is released.
    pub open spec fn can_exit(self, id: int) -> bool {
        self.worker_is(id, WorkerStatus::Idle) && self.runs.len() >= self.jobs.len()
            && !self.accepting
    }

    /// Worker `id` leaves its loop.
    pub open spec fn exit(self, id: int) -> Self {
        PoolView {
            workers: self.with_status(id, WorkerStatus::Exited),
            ..self
        }
    }

    /// Whether worker `id` may report the end of a job: it is busy.
    pub open spec fn can_finish(self, id: int) -> bool {
        self.worker_is(id, WorkerStatus::Busy)
    }

    /// Worker `id` has run its job to completion and waits for the next.
    pub open spec fn finish(self, id: int) -> Self {
        PoolView {
            workers: self.with_status(id, WorkerStatus::Idle),
            runs: self.runs.update(
                self.current[id] as int,
                JobRun { worker: id as nat, outcome: Outcome::Completed },
            ),
            ..self
        }
    }

    /// Whether teardown may record that it has waited for the next worker in
    /// creation order: teardown has begun, a worker is left, and a thread
    /// that ended normally had left its loop before.
    pub open spec fn can_join(self, panicked: bool) -> bool {
        &&& !self.accepting
        &&& self.joined < self.workers.len()
        &&& !panicked ==> self.workers[self.joined as int].status is Exited
    }

    /// Teardown has waited for worker `joined`. A thread that ended normally
    /// is recorded as joined. One that panicked is recorded as such, and the
    /// job it was running, if any, as abandoned.
    pub open spec fn join(self, panicked: bool) -> Self {
        let w = self.joined as int;
        if !panicked {
            PoolView {
                workers: self.with_status(w, WorkerStatus::Joined),
                joined: self.joined + 1,
                ..self
            }
        } else {
            PoolView {
                workers: self.with_status(w, WorkerStatus::Panicked),
                joined: self.joined + 1,
                runs: if self.workers[w].status is Busy {
                    self.runs.update(
                        self.current[w] as int,
                        JobRun { worker: w as nat, outcome: Outcome::Abandoned },
                    )
                } else {
                    self.runs
                },
                ..self
            }
        }
    }

    /// What submitting a job returns.
    pub open spec fn submit_result(self) -> Result<(), PoolError> {
        if self.accepting {
            Ok(())
        } else {
            Err(PoolError::ShutDown)
        }
    }

    /// What worker `id` is told when it asks for its next job.
    pub open spec fn receive_result(self, id: int) -> Result<Step<J>, PoolError> {
        if !(0 <= id < self.workers.len()) {
            Err(PoolError::UnknownWorker)
        } else if !(self.workers[id].status is Idle) {
            Err(PoolError::NotIdle)
        } else if self.runs.len() < self.jobs.len() {
            Ok(Step::Run(self.jobs[self.runs.len() as int]))
        } else if self.accepting {
            Ok(Step::Wait)
        } else {
            Ok(Step::Exit)
        }
    }

    /// The state after worker `id` asked for its next job.
    pub open spec fn after_receive(self, id: int) -> Self {
        if self.can_take(id) {
            self.take(id)
        } else if self.can_exit(id) {
            self.exit(id)
        } else {
            self
        }
    }

    /// What worker `id` is told when it reports the end of a job.
    pub open spec fn finish_result(self, id: int) -> Result<(), PoolError> {
        if !(0 <= id < self.workers.len()) {
            Err(PoolError::UnknownWorker)
        } else if !(self.workers[id].status is Busy) {
            Err(PoolError::NotBusy)
        } else {
            Ok(())
        }
    }

    /// The state after worker `id` reported the end of a job.
    pub open spec fn after_finish(self, id: int) -> Self {
        if self.can_finish(id) {
            self.finish(id)
        } else {
            self
        }
    }

    /// The worker that teardown has to wait for next, if any.
    pub open spec fn next_join(self) -> Option<usize> {
        if !self.accepting && self.joined < self.workers.len() {
            Some(self.joined as usize)
        } else {
            None
        }
    }

    /// What teardown is told when it reports having waited for the next
    /// worker: the id of that worker, or why the report is refused.
    pub open spec fn join_result(self, panicked: bool) -> Result<usize, PoolError> {
        if self.accepting || self.joined >= self.workers.len() {
            Err(PoolError::NotDraining)
        } else if !panicked && !(self.workers[self.joined as int].status is Exited) {
            Err(PoolError::StillRunning)
        } else {
            Ok(self.joined as usize)
        }
    }

    /// The state after teardown reported having waited for the next worker.
    pub open spec fn after_join(self, panicked: bool) -> Self {
        if self.can_join(panicked) {
            self.join(panicked)
        } else {
            self
        }
    }

    /// One transition of the state machine: `next` is what some enabled event
    /// makes of `self`.
    pub open spec fn step(self, next: Self) -> bool {
        ||| exists|job: J| next == self.submit(job)
        ||| next == self.close()
        ||| exists|id: int| self.can_take(id) && next == self.take(id)
        ||| exists|id: int| self.can_exit(id) && next == self.exit(id)
        ||| exists|id: int| self.can_finish(id) && next == self.finish(id)
        ||| exists|panicked: bool| self.can_join(panicked) && next == self.join(panicked)
    }
}

/// How many more events a worker in the given status can cause at most while
/// nothing is pending: a busy worker finishes, leaves and is waited for; an
/// idle one leaves and is waited for; one that left is waited for.
pub open spec fn events_left(status: WorkerStatus) -> nat {
    match status {
        WorkerStatus::Busy => 3,
        WorkerStatus::Idle => 2,
        WorkerStatus::Exited => 1,
        WorkerStatus::Joined | WorkerStatus::Panicked => 0,
    }
}

/// The sum of [`events_left`] over the given workers.
pub open spec fn events_left_of_all(workers: Seq<Worker>) -> nat
    decreases workers.len(),
{
    if workers.len() == 0 {
        0
    } else {
        events_left_of_all(workers.drop_last()) + events_left(workers.last().status)
    }
}

/// A bound on the number of events that can still change a pool once
/// teardown has begun: each pending job is taken and finished, and each
/// worker goes the rest of its way.
pub open spec fn teardown_bound<J>(v: PoolView<J>) -> nat {
    2 * v.pending().len() + events_left_of_all(v.workers)
}

/// Whether the transition from `states[k]` to `states[k + 1]` is one of the
/// state machine.
pub open spec fn step_at<J>(states: Seq<PoolView<J>>, k: int) -> bool {
    states[k].step(states[k + 1])
}

/// Whether `states` is an execution of a pool of `size` workers: the states
/// the pool went through, one per event, from its construction onwards.
pub open spec fn is_execution<J>(size: nat, states: Seq<PoolView<J>>) -> bool {
    &&& 1 <= size <= usize::MAX
    &&& states.len() >= 1
    &&& states[0] == PoolView::<J>::init(size)
    &&& forall|k: int| 0 <= k < states.len() - 1 ==> #[trigger] step_at(states, k)
}

/// Whether the transition from `states[k]` to `states[k + 1]` hands the job
/// `jobs[i]` to a worker.
pub open spec fn hands_out<J>(states: Seq<PoolView<J>>, k: int, i: nat) -> bool {
    &&& 0 <= k < states.len() - 1
    &&& states[k].started() == i
    &&& states[k + 1].started() == i + 1
}

} // verus!
