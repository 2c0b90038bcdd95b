//! The worker pool: a fixed set of workers, the queue they share, and the
//! decisions of submission, work distribution and teardown.
//!
//! The pool decides; it does not run anything itself. Whoever owns the
//! threads tells it what happened (a job was submitted, a worker asks for
//! work, a worker is done, a thread has ended) and is told what to do next.

use crate::inductive::{
    lemma_close_inv, lemma_exit_inv, lemma_finish_inv, lemma_init_inv, lemma_join_inv,
    lemma_submit_inv, lemma_take_inv,
};
use crate::model::{JobRun, Outcome, PoolError, PoolState, PoolView, Step};
use crate::queue::{Received, WorkQueue};
use crate::worker::{Worker, WorkerStatus};
use vstd::prelude::*;

verus! {

/// A pool of a fixed number of workers that share one queue of jobs of type
/// `J`.
pub struct ThreadPool<J> {
    workers: Vec<Worker>,
    queue: WorkQueue<J>,
    joined: usize,
    jobs: Ghost<Seq<J>>,
    runs: Ghost<Seq<JobRun>>,
    current: Ghost<Seq<nat>>,
}

impl<J> View for ThreadPool<J> {
    type V = PoolView<J>;

    closed spec fn view(&self) -> PoolView<J> {
        PoolView {
            workers: self.workers@,
            current: self.current@,
            accepting: self.queue@.open,
            joined: self.joined as nat,
            jobs: self.jobs@,
            runs: self.runs@,
        }
    }
}

impl<J> ThreadPool<J> {
    /// The queue buffers exactly the accepted jobs that no worker has taken.
    pub closed spec fn queue_matches(&self) -> bool {
        self.queue@.items == self@.pending()
    }

    /// Well-formedness: the state satisfies the invariant of the state
    /// machine, and the queue agrees with the history.
    pub open spec fn wf(&self) -> bool {
        self@.inv() && self.queue_matches()
    }

    /// Creates a pool of `size` idle workers with ids `0..size` that accepts
    /// work and has nothing queued.
    pub fn new(size: usize) -> (pool: Self)
        requires
            size > 0,
        ensures
            pool.wf(),
            pool@ == PoolView::<J>::init(size as nat),
            pool@.size() == size,
            forall|id: int|
                0 <= id < size ==> #[trigger] pool@.workers[id] == (Worker {
                    id: id as usize,
                    status: WorkerStatus::Idle,
                }),
            forall|a: int, b: int|
                0 <= a < b < size ==> (#[trigger] pool@.workers[a]).id != (
                #[trigger] pool@.workers[b]).id,
            pool@.state() == PoolState::Accepting,
            pool@.jobs.len() == 0,
    {
        let mut workers: Vec<Worker> = Vec::new();
        let mut id: usize = 0;
        while id < size
            invariant
                id <= size,
                workers@.len() == id,
                forall|i: int|
                    0 <= i < id ==> workers@[i] == (Worker {
                        id: i as usize,
                        status: WorkerStatus::Idle,
                    }),
            decreases size - id,
        {
            workers.push(Worker { id, status: WorkerStatus::Idle });
            id += 1;
        }
        let pool = ThreadPool {
            workers,
            queue: WorkQueue::new(),
            joined: 0,
            jobs: Ghost(Seq::empty()),
            runs: Ghost(Seq::empty()),
            current: Ghost(Seq::new(size as nat, |i: int| 0nat)),
        };
        proof {
            lemma_init_inv::<J>(size as nat);
            assert(pool@.workers =~= PoolView::<J>::init(size as nat).workers);
            assert(pool@.pending() =~= Seq::<J>::empty());
        }
        pool
    }

    /// Creates a pool of `size` workers as [`ThreadPool::new`] does, unless
    /// `size` is zero: a pool without workers could never run a job, so none
    /// is made.
    pub fn try_new(size: usize) -> (made: Option<Self>)
        ensures
            size == 0 <==> made.is_none(),
            made matches Some(pool) ==> pool.wf() && pool@ == PoolView::<J>::init(size as nat),
    {
        if size == 0 {
            None
        } else {
            Some(Self::new(size))
        }
    }

    /// Number of workers.
    pub fn size(&self) -> (n: usize)
        requires
            self.wf(),
        ensures
            n == self@.size(),
            n >= 1,
    {
        self.workers.len()
    }

    /// The phase the pool is in.
    pub fn state(&self) -> (state: PoolState)
        requires
            self.wf(),
        ensures
            state == self@.state(),
    {
        if self.queue.is_open() {
            PoolState::Accepting
        } else if self.joined < self.workers.len() {
            PoolState::Draining
        } else {
            PoolState::Terminated
        }
    }

    /// Number of accepted jobs that no worker has taken yet.
    pub fn pending(&self) -> (n: usize)
        requires
            self.wf(),
        ensures
            n == self@.pending().len(),
    {
        self.queue.len()
    }

    /// The record of worker `id`, if there is such a worker.
    pub fn worker(&self, id: usize) -> (worker: Option<Worker>)
        requires
            self.wf(),
        ensures
            id < self@.size() ==> worker == Some(self@.workers[id as int]),
            id >= self@.size() ==> worker.is_none(),
    {
        if id < self.workers.len() {
            Some(self.workers[id])
        } else {
            None
        }
    }

    /// Submits a job. While the pool accepts work the job is queued behind
    /// all jobs submitted before it. Once teardown has begun the job is
    /// discarded, nothing changes, and the rejection is reported.
    pub fn execute(&mut self, job: J) -> (result: Result<(), PoolError>)
        requires
            old(self).wf(),
        ensures
            final(self).wf(),
            result == old(self)@.submit_result(),
            final(self)@ == old(self)@.submit(job),
    {
        match self.queue.send(job) {
            Ok(()) => {
                proof {
                    self.jobs = Ghost(self.jobs@.push(job));
                    lemma_submit_inv(old(self)@, job);
                    assert(self@.pending() =~= old(self)@.pending().push(job));
                }
                Ok(())
            },
            Err(_) => Err(PoolError::ShutDown),
        }
    }

    /// Begins teardown: from now on submissions are rejected, and workers
    /// leave once the queue is empty. Returns whether this call began it;
    /// a later call changes nothing.
    pub fn shutdown(&mut self) -> (began: bool)
        requires
            old(self).wf(),
        ensures
            final(self).wf(),
            began == old(self)@.accepting,
            final(self)@ == old(self)@.close(),
            !began ==> final(self)@ == old(self)@,
    {
        let began: bool = self.queue.is_open();
        self.queue.close();
        proof {
            lemma_close_inv(old(self)@);
        }
        began
    }

    /// Worker `id` asks for its next job. An idle worker is handed the oldest
    /// pending job and becomes busy; with nothing pending it is told to wait
    /// while the pool accepts work, and to exit once teardown has begun.
    pub fn receive(&mut self, id: usize) -> (result: Result<Step<J>, PoolError>)
        requires
            old(self).wf(),
        ensures
            final(self).wf(),
            result == old(self)@.receive_result(id as int),
            final(self)@ == old(self)@.after_receive(id as int),
    {
        if id >= self.workers.len() {
            return Err(PoolError::UnknownWorker);
        }
        match self.workers[id].status {
            WorkerStatus::Idle => {},
            _ => {
                return Err(PoolError::NotIdle);
            },
        }
        match self.queue.recv() {
            Received::Job(job) => {
                self.workers.set(id, Worker { id, status: WorkerStatus::Busy });
                proof {
                    self.current = Ghost(self.current@.update(id as int, self.runs@.len()));
                    self.runs = Ghost(
                        self.runs@.push(JobRun { worker: id as nat, outcome: Outcome::Running }),
                    );
                    assert(old(self)@.worker_inv(id as int));
                    lemma_take_inv(old(self)@, id as int);
                    assert(self@.pending() =~= old(self)@.pending().skip(1));
                }
                Ok(Step::Run(job))
            },
            Received::Empty => Ok(Step::Wait),
            Received::Closed => {
                self.workers.set(id, Worker { id, status: WorkerStatus::Exited });
                proof {
                    assert(old(self)@.worker_inv(id as int));
                    lemma_exit_inv(old(self)@, id as int);
                }
                Ok(Step::Exit)
            },
        }
    }

    /// Worker `id` reports that it has run its job to completion. A busy
    /// worker becomes idle again and its job is recorded as completed.
    pub fn finished(&mut self, id: usize) -> (result: Result<(), PoolError>)
        requires
            old(self).wf(),
        ensures
            final(self).wf(),
            result == old(self)@.finish_result(id as int),
            final(self)@ == old(self)@.after_finish(id as int),
    {
        if id >= self.workers.len() {
            return Err(PoolError::UnknownWorker);
        }
        match self.workers[id].status {
            WorkerStatus::Busy => {},
            _ => {
                return Err(PoolError::NotBusy);
            },
        }
        self.workers.set(id, Worker { id, status: WorkerStatus::Idle });
        proof {
            self.runs = Ghost(
                self.runs@.update(
                    self.current@[id as int] as int,
                    JobRun { worker: id as nat, outcome: Outcome::Completed },
                ),
            );
            assert(old(self)@.worker_inv(id as int));
            lemma_finish_inv(old(self)@, id as int);
        }
        Ok(())
    }

    /// The worker that teardown has to wait for next: the first one in
    /// creation order that has not been waited for, once teardown has begun.
    pub fn next_join(&self) -> (next: Option<usize>)
        requires
            self.wf(),
        ensures
            next == self@.next_join(),
    {
        if !self.queue.is_open() && self.joined < self.workers.len() {
            Some(self.joined)
        } else {
            None
        }
    }

    /// Teardown reports that the thread of the next worker in creation order
    /// has ended, and whether it ended in a panic. Returns the id of that
    /// worker. A panic is recorded for that worker alone, and teardown goes
    /// on to the worker after it.
    pub fn worker_joined(&mut self, panicked: bool) -> (result: Result<usize, PoolError>)
        requires
            old(self).wf(),
        ensures
            final(self).wf(),
            result == old(self)@.join_result(panicked),
            final(self)@ == old(self)@.after_join(panicked),
    {
        if self.queue.is_open() || self.joined >= self.workers.len() {
            return Err(PoolError::NotDraining);
        }
        let id: usize = self.joined;
        let status = self.workers[id].status;
        proof {
            assert(old(self)@.worker_inv(id as int));
        }
        if panicked {
            self.workers.set(id, Worker { id, status: WorkerStatus::Panicked });
            proof {
                if status is Busy {
                    self.runs = Ghost(
                        self.runs@.update(
                            self.current@[id as int] as int,
                            JobRun { worker: id as nat, outcome: Outcome::Abandoned },
                        ),
                    );
                }
            }
        } else {
            match status {
                WorkerStatus::Exited => {},
                _ => {
                    return Err(PoolError::StillRunning);
                },
            }
            self.workers.set(id, Worker { id, status: WorkerStatus::Joined });
        }
        self.joined = id + 1;
        proof {
            lemma_join_inv(old(self)@, panicked);
        }
        Ok(id)
    }
}

} // verus!
