//! A fixed-size worker pool, written as a state machine that owns no threads,
//! and what a small web server computes for each request.
//!
//! # The pool
//!
//! A [`ThreadPool`] keeps the job queue, the state of every worker and the
//! progress of shutdown. The caller supplies the threads and the waiting:
//!
//! * the producer calls [`ThreadPool::execute`] to submit a job;
//! * each worker thread calls [`ThreadPool::receive`] to learn what to do
//!   next, executes the job it is handed outside the pool, and reports with
//!   [`ThreadPool::finish`], or with [`ThreadPool::fail`] if the job died;
//! * the owner calls [`ThreadPool::shutdown`], which closes the queue and
//!   joins the workers in order, as far as they have terminated.
//!
//! Where a thread would block, the pool answers instead: a worker is told to
//! [`WorkerAction::Wait`], and shutdown reports [`ShutdownStatus::Waiting`].
//! The pool must be shared under a lock, so that one caller at a time takes a
//! step. That is the one point at which the threads synchronise.
//!
//! # What is proved
//!
//! Every function is verified against the model in [`model`]: the contract of
//! each transition names the exact next state. The guarantees that hold of
//! every run are proved in [`laws`], over the histories of [`history`]: jobs
//! leave the queue in the order of submission, each to one worker; a pool that
//! has stopped has executed every job exactly once; and once shutdown has
//! begun, the workers come to rest after a bounded number of steps.
//!
//! # The server
//!
//! [`http`] maps a request line to its answer and formats the response, and
//! [`messages`] holds the lines that the pool's threads write to the log.

pub mod history;
pub mod http;
pub mod laws;
pub mod messages;
pub mod model;
pub mod pool;
pub mod queue;
pub mod text;
pub mod worker;

pub use model::{JobStatus, PoolPhase, PoolState, ShutdownStatus};
pub use pool::ThreadPool;
pub use queue::{JobQueue, QueueView, Received, SendFailed};
pub use worker::{Worker, WorkerAction, WorkerState, WorkerView};
