//! One worker of the pool: its identifier and where it stands in its loop.

use crate::queue::Received;
use vstd::prelude::*;

verus! {

/// Where a worker stands.
#[derive(Clone, Copy, Debug, PartialEq, Eq, Structural)]
pub enum WorkerState {
    /// Waiting for a job.
    Idle,
    /// Executing the job it claimed.
    Running,
    /// Left its loop after the disconnect signal. Final.
    Terminated,
    /// Died while executing a job. Final.
    Failed,
}

impl WorkerState {
    /// Whether the worker's thread is still in its loop.
    pub open spec fn is_live(self) -> bool {
        self is Idle || self is Running
    }
}

/// What a worker has to do after one receive attempt.
#[derive(Debug)]
pub enum WorkerAction<J> {
    /// Execute this job to completion, then report back.
    Run(J),
    /// Nothing to do yet: wait until the queue changes and ask again.
    Wait,
    /// Leave the loop and end the thread.
    Exit,
}

/// The mathematical state of one worker.
pub struct WorkerView {
    pub id: nat,
    pub state: WorkerState,
}

impl WorkerView {
    /// A worker that was just started.
    pub open spec fn fresh(id: nat) -> Self {
        WorkerView { id, state: WorkerState::Idle }
    }

    /// The worker after a receive attempt that found `received`.
    pub open spec fn after_receive<J>(self, received: Received<J>) -> Self {
        match received {
            Received::Job(_) => WorkerView { state: WorkerState::Running, ..self },
            Received::Empty => self,
            Received::Disconnected => WorkerView { state: WorkerState::Terminated, ..self },
        }
    }

    /// The worker after its job returned.
    pub open spec fn after_finish(self) -> Self {
        WorkerView { state: WorkerState::Idle, ..self }
    }

    /// The worker after its job ended abnormally.
    pub open spec fn after_failure(self) -> Self {
        WorkerView { state: WorkerState::Failed, ..self }
    }
}

/// What the loop of a worker does with what a receive attempt found.
pub open spec fn action_for<J>(received: Received<J>) -> WorkerAction<J> {
    match received {
        Received::Job(job) => WorkerAction::Run(job),
        Received::Empty => WorkerAction::Wait,
        Received::Disconnected => WorkerAction::Exit,
    }
}

/// A worker: a small integer that names it, and its state.
#[derive(Clone, Copy, Debug)]
pub struct Worker {
    id: usize,
    state: WorkerState,
}

impl View for Worker {
    type V = WorkerView;

    closed spec fn view(&self) -> WorkerView {
        WorkerView { id: self.id as nat, state: self.state }
    }
}

impl Worker {
    /// A worker named `id`, waiting for its first job.
    pub fn new(id: usize) -> (w: Worker)
        ensures
            w@ == WorkerView::fresh(id as nat),
    {
        Worker { id, state: WorkerState::Idle }
    }

    /// The identifier.
    pub fn id(&self) -> (id: usize)
        ensures
            id == self@.id,
    {
        self.id
    }

    /// The current state.
    pub fn state(&self) -> (s: WorkerState)
        ensures
            s == self@.state,
    {
        self.state
    }

    /// One turn of the worker's loop: takes what the receive attempt found
    /// and says what to do. A job makes the worker `Running`, the disconnect
    /// signal makes it `Terminated`, an empty queue leaves it `Idle`.
    pub fn on_receive<J>(&mut self, received: Received<J>) -> (action: WorkerAction<J>)
        requires
            old(self)@.state is Idle,
        ensures
            final(self)@ == old(self)@.after_receive(received),
            action == action_for(received),
    {
        match received {
            Received::Job(job) => {
                self.state = WorkerState::Running;
                WorkerAction::Run(job)
            },
            Received::Empty => WorkerAction::Wait,
            Received::Disconnected => {
                self.state = WorkerState::Terminated;
                WorkerAction::Exit
            },
        }
    }

    /// The job returned: the worker is `Idle` again.
    pub fn on_finish(&mut self)
        requires
            old(self)@.state is Running,
        ensures
            final(self)@ == old(self)@.after_finish(),
    {
        self.state = WorkerState::Idle;
    }

    /// The job ended abnormally and took the worker with it.
    pub fn on_failure(&mut self)
        requires
            old(self)@.state is Running,
        ensures
            final(self)@ == old(self)@.after_failure(),
    {
        self.state = WorkerState::Failed;
    }
}

} // verus!
