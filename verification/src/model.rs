//! The pool as a state machine over mathematical values.
//!
//! A [`PoolState`] records the whole history of a pool: every job that was
//! ever accepted, what became of each, and where every worker stands. The
//! functions named `after_*` are the transitions, and [`PoolState::inv`] is
//! what holds of every state that the transitions can reach.

use crate::queue::QueueView;
use crate::worker::{action_for, WorkerAction, WorkerView};
use vstd::prelude::*;

verus! {

/// What became of one accepted job. A worker is named by its identifier.
pub enum JobStatus {
    /// Still in the queue.
    Queued,
    /// Claimed by this worker, which is executing it.
    Running(nat),
    /// Executed to completion by this worker.
    Done(nat),
    /// Claimed by this worker, which died while executing it.
    Lost(nat),
}

/// Where the pool stands in its life.
#[derive(Clone, Copy, Debug, PartialEq, Eq, Structural)]
pub enum PoolPhase {
    /// The producer end exists: jobs are accepted.
    Accepting,
    /// The producer end is dropped and some worker is not joined yet.
    ShuttingDown,
    /// Every worker is joined.
    Stopped,
}

/// What a call of shutdown achieved.
#[derive(Clone, Copy, Debug, PartialEq, Eq, Structural)]
pub enum ShutdownStatus {
    /// Every worker has left its loop and is joined.
    Stopped,
    /// The worker with this identifier is still in its loop; joining it
    /// would block. All workers before it are joined.
    Waiting(usize),
    /// The worker with this identifier died while executing a job, so it
    /// cannot be joined. All workers before it are joined.
    WorkerFailed(usize),
}

/// The first position at or after `from` whose worker has not terminated,
/// or the number of workers if there is none.
pub open spec fn join_frontier(workers: Seq<WorkerView>, from: nat) -> nat
    decreases workers.len() - from,
{
    if from < workers.len() && workers[from as int].state is Terminated {
        join_frontier(workers, from + 1)
    } else {
        from
    }
}

/// The mathematical state of a pool.
pub struct PoolState<J> {
    /// The queue with its history.
    pub queue: QueueView<J>,
    /// What became of each accepted job, by position in `queue.accepted`.
    pub status: Seq<JobStatus>,
    /// The positions of the jobs executed to completion, in the order in
    /// which they completed.
    pub finished: Seq<nat>,
    /// The workers, by identifier.
    pub workers: Seq<WorkerView>,
    /// For each worker, the position in `queue.accepted` of the job that it
    /// claimed last. It tells which job a `Running` worker is executing and
    /// which job was lost with a `Failed` one.
    pub holding: Seq<nat>,
    /// How many workers are joined. They are joined in the order of their
    /// identifiers, so these are the workers `0 .. joined`.
    pub joined: nat,
}

impl<J> PoolState<J> {
    /// A new pool of `size` idle workers and an empty queue.
    pub open spec fn init(size: nat) -> Self {
        PoolState {
            queue: QueueView::empty(),
            status: Seq::empty(),
            finished: Seq::empty(),
            workers: Seq::new(size, |w: int| WorkerView::fresh(w as nat)),
            holding: Seq::new(size, |w: int| 0nat),
            joined: 0,
        }
    }

    /// The number of workers.
    pub open spec fn size(self) -> nat {
        self.workers.len()
    }

    /// Whether `w` names a worker.
    pub open spec fn is_worker(self, w: nat) -> bool {
        w < self.workers.len()
    }

    /// Whether `w` names a worker that waits for a job.
    pub open spec fn is_idle(self, w: nat) -> bool {
        self.is_worker(w) && self.workers[w as int].state is Idle
    }

    /// Whether `w` names a worker that executes a job.
    pub open spec fn is_running(self, w: nat) -> bool {
        self.is_worker(w) && self.workers[w as int].state is Running
    }

    /// Whether some worker is still in its loop.
    pub open spec fn has_live_worker(self) -> bool {
        exists|w: int| 0 <= w < self.workers.len() && (#[trigger] self.workers[w]).state.is_live()
    }

    /// Whether the pool accepts a job: the producer end exists and some
    /// worker is there to receive.
    pub open spec fn accepting(self) -> bool {
        self.queue.sender && self.has_live_worker()
    }

    /// Whether every worker has left its loop after the disconnect signal.
    pub open spec fn all_terminated(self) -> bool {
        forall|w: int| 0 <= w < self.workers.len() ==> (#[trigger] self.workers[w]).state is Terminated
    }

    /// Where the pool stands in its life.
    pub open spec fn phase(self) -> PoolPhase {
        if self.queue.sender {
            PoolPhase::Accepting
        } else if self.joined < self.workers.len() {
            PoolPhase::ShuttingDown
        } else {
            PoolPhase::Stopped
        }
    }

    /// The state with the consumer end dropped if no worker is left to hold it.
    pub open spec fn settled(self) -> Self {
        PoolState {
            queue: QueueView { receiver: self.queue.receiver && self.has_live_worker(), ..self.queue },
            ..self
        }
    }

    /// The state after `job` is accepted.
    pub open spec fn after_execute(self, job: J) -> Self {
        PoolState {
            queue: self.queue.after_send(job),
            status: self.status.push(JobStatus::Queued),
            ..self
        }
    }

    /// What the next receive attempt tells the worker that makes it.
    pub open spec fn next_action(self) -> WorkerAction<J> {
        action_for(self.queue.next_received())
    }

    /// The state after one receive attempt of worker `w`: it claims the
    /// oldest waiting job, or terminates on the disconnect signal, or
    /// nothing changes.
    pub open spec fn after_receive(self, w: nat) -> Self {
        let found = self.queue.next_received();
        let next = self.queue.delivered;
        PoolState {
            queue: self.queue.after_receive(),
            status: if found is Job {
                self.status.update(next as int, JobStatus::Running(w))
            } else {
                self.status
            },
            workers: self.workers.update(w as int, self.workers[w as int].after_receive(found)),
            holding: if found is Job {
                self.holding.update(w as int, next)
            } else {
                self.holding
            },
            ..self
        }.settled()
    }

    /// The state after the job of worker `w` returned.
    pub open spec fn after_finish(self, w: nat) -> Self {
        let job = self.holding[w as int];
        PoolState {
            status: self.status.update(job as int, JobStatus::Done(w)),
            finished: self.finished.push(job),
            workers: self.workers.update(w as int, self.workers[w as int].after_finish()),
            ..self
        }
    }

    /// The state after the job of worker `w` ended abnormally.
    pub open spec fn after_failure(self, w: nat) -> Self {
        let job = self.holding[w as int];
        PoolState {
            status: self.status.update(job as int, JobStatus::Lost(w)),
            workers: self.workers.update(w as int, self.workers[w as int].after_failure()),
            ..self
        }.settled()
    }

    /// The state after a call of shutdown: the producer end is dropped, then
    /// the workers are joined in order for as long as they have terminated.
    pub open spec fn after_shutdown(self) -> Self {
        PoolState {
            queue: self.queue.after_close(),
            joined: join_frontier(self.workers, self.joined),
            ..self
        }
    }

    /// What a call of shutdown reports in this state.
    pub open spec fn shutdown_status(self) -> ShutdownStatus {
        let next = join_frontier(self.workers, self.joined);
        if next >= self.workers.len() {
            ShutdownStatus::Stopped
        } else if self.workers[next as int].state is Failed {
            ShutdownStatus::WorkerFailed(next as usize)
        } else {
            ShutdownStatus::Waiting(next as usize)
        }
    }

    /// What holds of the job at position `k`.
    pub open spec fn job_ok(self, k: int) -> bool {
        match self.status[k] {
            JobStatus::Queued => self.queue.delivered <= k,
            JobStatus::Running(w) => {
                &&& k < self.queue.delivered
                &&& w < self.workers.len()
                &&& self.workers[w as int].state is Running
                &&& self.holding[w as int] == k
            },
            JobStatus::Done(w) => {
                &&& k < self.queue.delivered
                &&& w < self.workers.len()
                &&& self.finished.contains(k as nat)
            },
            JobStatus::Lost(w) => {
                &&& k < self.queue.delivered
                &&& w < self.workers.len()
                &&& self.workers[w as int].state is Failed
                &&& self.holding[w as int] == k
            },
        }
    }

    /// What holds of the worker named `w`.
    pub open spec fn worker_ok(self, w: int) -> bool {
        let worker = self.workers[w];
        let job = self.holding[w];
        &&& worker.id == w
        &&& worker.state is Running ==> job < self.queue.delivered && self.status[job as int]
            == JobStatus::Running(w as nat)
        &&& worker.state is Failed ==> job < self.queue.delivered && self.status[job as int]
            == JobStatus::Lost(w as nat)
        &&& worker.state is Terminated ==> !self.queue.sender && self.queue.delivered
            == self.queue.accepted.len()
        &&& w < self.joined ==> worker.state is Terminated
    }

    /// What holds of the `i`-th completion.
    pub open spec fn completion_ok(self, i: int) -> bool {
        &&& self.finished[i] < self.status.len()
        &&& self.status[self.finished[i] as int] is Done
    }

    /// The invariant of the pool. It holds of a new pool and every
    /// transition keeps it.
    pub open spec fn inv(self) -> bool {
        &&& self.workers.len() > 0
        &&& self.queue.delivered <= self.queue.accepted.len()
        &&& self.status.len() == self.queue.accepted.len()
        &&& self.joined <= self.workers.len()
        &&& self.holding.len() == self.workers.len()
        &&& self.queue.receiver == self.has_live_worker()
        &&& self.finished.no_duplicates()
        &&& forall|k: int| 0 <= k < self.status.len() ==> #[trigger] self.job_ok(k)
        &&& forall|w: int| 0 <= w < self.workers.len() ==> #[trigger] self.worker_ok(w)
        &&& forall|i: int| 0 <= i < self.finished.len() ==> #[trigger] self.completion_ok(i)
    }
}

/// A new pool satisfies the invariant and accepts jobs.
pub proof fn lemma_init_inv<J>(size: nat)
    requires
        size > 0,
    ensures
        PoolState::<J>::init(size).inv(),
        PoolState::<J>::init(size).accepting(),
{
    let s = PoolState::<J>::init(size);
    assert(s.workers[0].state.is_live());
    assert forall|w: int| 0 <= w < s.workers.len() implies #[trigger] s.worker_ok(w) by {}
}

/// Accepting a job keeps the invariant.
pub proof fn lemma_execute_inv<J>(s: PoolState<J>, job: J)
    requires
        s.inv(),
        s.accepting(),
    ensures
        s.after_execute(job).inv(),
{
    let t = s.after_execute(job);
    assert forall|k: int| 0 <= k < t.status.len() implies #[trigger] t.job_ok(k) by {
        if k < s.status.len() {
            assert(s.job_ok(k));
        }
    }
    assert forall|w: int| 0 <= w < t.workers.len() implies #[trigger] t.worker_ok(w) by {
        assert(s.worker_ok(w));
    }
    assert forall|i: int| 0 <= i < t.finished.len() implies #[trigger] t.completion_ok(i) by {
        assert(s.completion_ok(i));
    }
}

/// A receive attempt of an idle worker keeps the invariant.
pub proof fn lemma_receive_inv<J>(s: PoolState<J>, w: nat)
    requires
        s.inv(),
        s.is_idle(w),
    ensures
        s.after_receive(w).inv(),
{
    let t = s.after_receive(w);
    assert forall|k: int| 0 <= k < t.status.len() implies #[trigger] t.job_ok(k) by {
        assert(s.job_ok(k));
    }
    assert forall|v: int| 0 <= v < t.workers.len() implies #[trigger] t.worker_ok(v) by {
        assert(s.worker_ok(v));
    }
    assert forall|i: int| 0 <= i < t.finished.len() implies #[trigger] t.completion_ok(i) by {
        assert(s.completion_ok(i));
        assert(s.job_ok(s.finished[i] as int));
    }
}

/// The return of a job keeps the invariant.
pub proof fn lemma_finish_inv<J>(s: PoolState<J>, w: nat)
    requires
        s.inv(),
        s.is_running(w),
    ensures
        s.after_finish(w).inv(),
{
    let t = s.after_finish(w);
    let job = s.holding[w as int];
    assert(s.worker_ok(w as int));
    assert(t.workers[w as int].state.is_live());
    assert(!s.finished.contains(job)) by {
        if s.finished.contains(job) {
            let i = choose|i: int| 0 <= i < s.finished.len() && s.finished[i] == job;
            assert(s.completion_ok(i));
        }
    }
    assert(t.finished[s.finished.len() as int] == job);
    assert forall|k: int| 0 <= k < t.status.len() implies #[trigger] t.job_ok(k) by {
        assert(s.job_ok(k));
        if s.status[k] is Done {
            let i = choose|i: int| 0 <= i < s.finished.len() && s.finished[i] == k as nat;
            assert(t.finished[i] == k as nat);
        }
    }
    assert forall|v: int| 0 <= v < t.workers.len() implies #[trigger] t.worker_ok(v) by {
        assert(s.worker_ok(v));
    }
    assert forall|i: int| 0 <= i < t.finished.len() implies #[trigger] t.completion_ok(i) by {
        if i < s.finished.len() {
            assert(s.completion_ok(i));
        }
    }
}

/// The abnormal end of a job keeps the invariant.
pub proof fn lemma_failure_inv<J>(s: PoolState<J>, w: nat)
    requires
        s.inv(),
        s.is_running(w),
    ensures
        s.after_failure(w).inv(),
{
    let t = s.after_failure(w);
    assert(s.worker_ok(w as int));
    assert forall|k: int| 0 <= k < t.status.len() implies #[trigger] t.job_ok(k) by {
        assert(s.job_ok(k));
    }
    assert forall|v: int| 0 <= v < t.workers.len() implies #[trigger] t.worker_ok(v) by {
        assert(s.worker_ok(v));
    }
    assert forall|i: int| 0 <= i < t.finished.len() implies #[trigger] t.completion_ok(i) by {
        assert(s.completion_ok(i));
    }
}

/// Joining stops at the first worker that has not terminated: all workers
/// between `from` and the frontier have terminated, and the worker at the
/// frontier, if there is one, has not.
pub proof fn lemma_join_frontier(workers: Seq<WorkerView>, from: nat)
    requires
        from <= workers.len(),
    ensures
        from <= join_frontier(workers, from) <= workers.len(),
        forall|w: int|
            from <= w < join_frontier(workers, from) ==> (#[trigger] workers[w]).state is Terminated,
        join_frontier(workers, from) < workers.len() ==> !(workers[join_frontier(
            workers,
            from,
        ) as int].state is Terminated),
    decreases workers.len() - from,
{
    if from < workers.len() && workers[from as int].state is Terminated {
        lemma_join_frontier(workers, from + 1);
    }
}

/// A call of shutdown keeps the invariant.
pub proof fn lemma_shutdown_inv<J>(s: PoolState<J>)
    requires
        s.inv(),
    ensures
        s.after_shutdown().inv(),
{
    let t = s.after_shutdown();
    lemma_join_frontier(s.workers, s.joined);
    assert forall|k: int| 0 <= k < t.status.len() implies #[trigger] t.job_ok(k) by {
        assert(s.job_ok(k));
    }
    assert forall|v: int| 0 <= v < t.workers.len() implies #[trigger] t.worker_ok(v) by {
        assert(s.worker_ok(v));
    }
    assert forall|i: int| 0 <= i < t.finished.len() implies #[trigger] t.completion_ok(i) by {
        assert(s.completion_ok(i));
    }
}

} // verus!
