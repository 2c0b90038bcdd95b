//! A fixed-size worker pool as a verified state machine.
//!
//! The pool takes jobs, hands each of them to exactly one of its workers in
//! submission order, and shuts down by draining its queue and waiting for
//! every worker. It decides and keeps the books; the threads that run the
//! jobs belong to its caller, who reports each event and does what the pool
//! answers.
//!
//! - [`queue`]: the queue of jobs between submitters and workers.
//! - [`worker`]: a worker as the pool records it.
//! - [`model`]: the state of a pool as mathematical values, and its
//!   transitions.
//! - [`inductive`]: the invariant of that state machine and why it always
//!   holds.
//! - [`laws`]: what the invariant and the transitions guarantee.
//! - [`pool`]: the pool itself.
//! - [`http`]: the request lines and responses of the server that feeds the
//!   pool.

pub mod http;
pub mod inductive;
pub mod laws;
pub mod model;
pub mod pool;
pub mod queue;
pub mod worker;

pub use model::{PoolError, PoolState, Step};
pub use pool::ThreadPool;
pub use worker::{Worker, WorkerStatus};
