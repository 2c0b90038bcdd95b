//! The work queue: an unbounded first-in, first-out pipe of jobs with a
//! producer side that can be closed exactly once.

use std::collections::VecDeque;
use vstd::prelude::*;

verus! {

/// What a consumer finds when it asks the queue for the next job.
#[derive(Debug, PartialEq, Eq)]
pub enum Received<J> {
    /// The job at the head of the queue, now owned by the consumer.
    Job(J),
    /// Nothing is buffered, but the producer side is still open: the consumer
    /// has to wait.
    Empty,
    /// Nothing is buffered and the producer side has been released: no job
    /// will ever arrive.
    Closed,
}

/// The mathematical content of a [`WorkQueue`].
pub struct QueueView<J> {
    /// The buffered jobs, oldest first.
    pub items: Seq<J>,
    /// Whether the producer side is still held.
    pub open: bool,
}

impl<J> QueueView<J> {
    /// The queue after `job` was sent: an open queue holds it behind all
    /// others, a closed queue is as before.
    pub open spec fn after_send(self, job: J) -> Self {
        if self.open {
            QueueView { items: self.items.push(job), ..self }
        } else {
            self
        }
    }

    /// What a consumer finds: the oldest job if there is one, else whether
    /// more may come.
    pub open spec fn head(self) -> Received<J> {
        if self.items.len() > 0 {
            Received::Job(self.items[0])
        } else if self.open {
            Received::Empty
        } else {
            Received::Closed
        }
    }

    /// The queue after a consumer asked: without its oldest job, if it had
    /// one.
    pub open spec fn after_recv(self) -> Self {
        if self.items.len() > 0 {
            QueueView { items: self.items.skip(1), ..self }
        } else {
            self
        }
    }
}

/// An ordered, capacity-unbounded pipe of jobs.
pub struct WorkQueue<J> {
    items: VecDeque<J>,
    open: bool,
}

impl<J> View for WorkQueue<J> {
    type V = QueueView<J>;

    closed spec fn view(&self) -> QueueView<J> {
        QueueView { items: self.items@, open: self.open }
    }
}

impl<J> WorkQueue<J> {
    /// Creates an open queue that buffers nothing.
    pub fn new() -> (queue: Self)
        ensures
            queue@.items == Seq::<J>::empty(),
            queue@.open,
    {
        WorkQueue { items: VecDeque::new(), open: true }
    }

    /// Number of buffered jobs.
    pub fn len(&self) -> (n: usize)
        ensures
            n == self@.items.len(),
    {
        self.items.len()
    }

    /// Whether the producer side is still held.
    pub fn is_open(&self) -> (open: bool)
        ensures
            open == self@.open,
    {
        self.open
    }

    /// Appends `job` behind everything already buffered. A closed queue takes
    /// nothing and hands the job back.
    pub fn send(&mut self, job: J) -> (result: Result<(), J>)
        ensures
            final(self)@ == old(self)@.after_send(job),
            result == (if old(self)@.open {
                Ok::<(), J>(())
            } else {
                Err::<(), J>(job)
            }),
    {
        if self.open {
            self.items.push_back(job);
            Ok(())
        } else {
            Err(job)
        }
    }

    /// Releases the producer side. Buffered jobs stay; closing twice changes
    /// nothing.
    pub fn close(&mut self)
        ensures
            final(self)@ == (QueueView { items: old(self)@.items, open: false }),
    {
        self.open = false;
    }

    /// Takes the oldest buffered job, if there is one; otherwise says whether
    /// more may still come.
    pub fn recv(&mut self) -> (received: Received<J>)
        ensures
            received == old(self)@.head(),
            final(self)@ == old(self)@.after_recv(),
    {
        match self.items.pop_front() {
            Some(job) => Received::Job(job),
            None => if self.open {
                Received::Empty
            } else {
                Received::Closed
            },
        }
    }
}

} // verus!
