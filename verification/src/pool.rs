//! The pool: a fixed set of workers, the queue they share, and shutdown.

use crate::model::{
    join_frontier, lemma_execute_inv, lemma_failure_inv, lemma_finish_inv, lemma_init_inv,
    lemma_receive_inv, lemma_shutdown_inv, JobStatus, PoolPhase, PoolState, ShutdownStatus,
};
use crate::queue::JobQueue;
use crate::worker::{Worker, WorkerAction, WorkerState, WorkerView};
use vstd::prelude::*;

verus! {

/// A pool of a fixed number of workers that execute jobs of type `J`.
///
/// The pool owns no thread. A worker's thread calls [`ThreadPool::receive`]
/// to learn what to do, executes the job it is handed, and calls
/// [`ThreadPool::finish`] when the job has returned.
pub struct ThreadPool<J> {
    workers: Vec<Worker>,
    queue: JobQueue<J>,
    joined: usize,
    holding: Ghost<Seq<nat>>,
    status: Ghost<Seq<JobStatus>>,
    finished: Ghost<Seq<nat>>,
}

impl<J> View for ThreadPool<J> {
    type V = PoolState<J>;

    closed spec fn view(&self) -> PoolState<J> {
        PoolState {
            queue: self.queue@,
            status: self.status@,
            finished: self.finished@,
            workers: Seq::new(self.workers@.len(), |w: int| self.workers@[w]@),
            holding: self.holding@,
            joined: self.joined as nat,
        }
    }
}

impl<J> ThreadPool<J> {
    /// The pool is in a state that the transitions can reach.
    pub closed spec fn wf(&self) -> bool {
        &&& self.queue.wf()
        &&& self@.inv()
    }

    /// A well-formed pool satisfies the invariant of the model, and its
    /// number of workers fits the machine.
    pub proof fn lemma_wf(&self)
        requires
            self.wf(),
        ensures
            self@.inv(),
            self@.size() <= usize::MAX,
    {
        assert(self.workers@.len() == self.workers.len());
    }

    /// Creates a pool of `size` workers, named `0 .. size`, all waiting for
    /// a job. A pool without workers is not a pool: `size` must not be zero.
    pub fn new(size: usize) -> (pool: ThreadPool<J>)
        requires
            size > 0,
        ensures
            pool.wf(),
            pool@ == PoolState::<J>::init(size as nat),
    {
        let mut workers: Vec<Worker> = Vec::with_capacity(size);
        let mut id: usize = 0;
        while id < size
            invariant
                id <= size,
                workers@.len() == id,
                forall|w: int| 0 <= w < id ==> (#[trigger] workers@[w])@ == WorkerView::fresh(w as nat),
            decreases size - id,
        {
            workers.push(Worker::new(id));
            id += 1;
        }
        let pool = ThreadPool {
            workers,
            queue: JobQueue::new(),
            joined: 0,
            holding: Ghost(Seq::new(size as nat, |w: int| 0nat)),
            status: Ghost(Seq::empty()),
            finished: Ghost(Seq::empty()),
        };
        proof {
            lemma_init_inv::<J>(size as nat);
            assert(pool@.workers =~= PoolState::<J>::init(size as nat).workers);
        }
        pool
    }

    /// Submits `job`: puts it at the back of the queue and returns at once.
    /// Whichever worker receives next will execute it. Submitting to a pool
    /// that no longer accepts jobs is a fault of the caller.
    pub fn execute(&mut self, job: J)
        requires
            old(self).wf(),
            old(self)@.accepting(),
        ensures
            final(self).wf(),
            final(self)@ == old(self)@.after_execute(job),
    {
        let sent = self.queue.send(job);
        assert(sent is Ok);
        self.status = Ghost(self.status@.push(JobStatus::Queued));
        proof {
            lemma_execute_inv(old(self)@, job);
        }
    }

    /// Whether [`ThreadPool::execute`] may be called.
    pub fn is_accepting(&self) -> (b: bool)
        requires
            self.wf(),
        ensures
            b == self@.accepting(),
    {
        self.queue.has_sender() && self.queue.has_receiver()
    }

    /// The number of workers.
    pub fn size(&self) -> (n: usize)
        requires
            self.wf(),
        ensures
            n == self@.size(),
            n > 0,
    {
        self.workers.len()
    }

    /// The number of jobs waiting in the queue.
    pub fn pending(&self) -> (n: usize)
        requires
            self.wf(),
        ensures
            n == self@.queue.pending().len(),
    {
        self.queue.len()
    }

    /// The state of the worker named `id`.
    pub fn worker_state(&self, id: usize) -> (state: WorkerState)
        requires
            self.wf(),
            self@.is_worker(id as nat),
        ensures
            state == self@.workers[id as int].state,
    {
        self.workers[id].state()
    }

    /// Where the pool stands in its life.
    pub fn phase(&self) -> (phase: PoolPhase)
        requires
            self.wf(),
        ensures
            phase == self@.phase(),
    {
        if self.queue.has_sender() {
            PoolPhase::Accepting
        } else if self.joined < self.workers.len() {
            PoolPhase::ShuttingDown
        } else {
            PoolPhase::Stopped
        }
    }

    /// Whether some worker is still in its loop.
    fn any_live(&self) -> (b: bool)
        ensures
            b == self@.has_live_worker(),
    {
        let mut w: usize = 0;
        while w < self.workers.len()
            invariant
                w <= self.workers@.len(),
                forall|v: int| 0 <= v < w ==> !(#[trigger] self@.workers[v]).state.is_live(),
            decreases self.workers@.len() - w,
        {
            let state = self.workers[w].state();
            if state == WorkerState::Idle || state == WorkerState::Running {
                assert(self@.workers[w as int].state.is_live());
                return true;
            }
            w += 1;
        }
        false
    }

    /// One receive attempt of the worker named `id`, which must be idle.
    ///
    /// If a job is waiting, the worker claims the oldest one and has to run
    /// it. If none is waiting and the pool is shutting down, the worker
    /// terminates. Otherwise it has to wait.
    pub fn receive(&mut self, id: usize) -> (action: WorkerAction<J>)
        requires
            old(self).wf(),
            old(self)@.is_idle(id as nat),
        ensures
            final(self).wf(),
            final(self)@ == old(self)@.after_receive(id as nat),
            action == old(self)@.next_action(),
    {
        let ghost before = self@;
        let found = self.queue.receive();
        let mut worker = self.workers[id];
        let action = worker.on_receive(found);
        self.workers.set(id, worker);
        self.holding = Ghost(before.after_receive(id as nat).holding);
        self.status = Ghost(before.after_receive(id as nat).status);
        if worker.state() == WorkerState::Terminated {
            // The last worker to leave takes the consumer end with it.
            if !self.any_live() {
                self.queue.disconnect();
            }
        } else {
            assert(self@.workers[id as int].state.is_live());
        }
        proof {
            lemma_receive_inv(before, id as nat);
            assert(self@.workers =~= before.after_receive(id as nat).workers);
        }
        action
    }

    /// The job of the worker named `id` has returned: the worker is idle
    /// again and the job counts as executed.
    pub fn finish(&mut self, id: usize)
        requires
            old(self).wf(),
            old(self)@.is_running(id as nat),
        ensures
            final(self).wf(),
            final(self)@ == old(self)@.after_finish(id as nat),
    {
        let ghost before = self@;
        let mut worker = self.workers[id];
        worker.on_finish();
        self.workers.set(id, worker);
        self.status = Ghost(before.after_finish(id as nat).status);
        self.finished = Ghost(before.after_finish(id as nat).finished);
        proof {
            lemma_finish_inv(before, id as nat);
            assert(self@.workers =~= before.after_finish(id as nat).workers);
        }
    }

    /// The job of the worker named `id` ended abnormally and took the
    /// worker's thread with it. The pool does not replace the worker.
    pub fn fail(&mut self, id: usize)
        requires
            old(self).wf(),
            old(self)@.is_running(id as nat),
        ensures
            final(self).wf(),
            final(self)@ == old(self)@.after_failure(id as nat),
    {
        let ghost before = self@;
        let mut worker = self.workers[id];
        worker.on_failure();
        self.workers.set(id, worker);
        self.status = Ghost(before.after_failure(id as nat).status);
        if !self.any_live() {
            self.queue.disconnect();
        }
        proof {
            lemma_failure_inv(before, id as nat);
            assert(self@.workers =~= before.after_failure(id as nat).workers);
        }
    }

    /// Shuts the pool down as far as it can without waiting.
    ///
    /// First the producer end of the queue is dropped, so that every worker
    /// that finds the queue empty terminates. Then the workers are joined
    /// in the order of their identifiers. Joining stops at the first worker
    /// that has not terminated, and the result names it. Calling again
    /// later carries on from there.
    pub fn shutdown(&mut self) -> (status: ShutdownStatus)
        requires
            old(self).wf(),
        ensures
            final(self).wf(),
            final(self)@ == old(self)@.after_shutdown(),
            status == old(self)@.shutdown_status(),
    {
        let ghost before = self@;
        self.queue.close();
        let mut next: usize = self.joined;
        let mut status = ShutdownStatus::Stopped;
        while next < self.workers.len()
            invariant_except_break
                join_frontier(before.workers, next as nat) == join_frontier(
                    before.workers,
                    before.joined,
                ),
                status == ShutdownStatus::Stopped,
            invariant
                next <= self.workers@.len(),
                self@.workers == before.workers,
            ensures
                next <= self.workers@.len(),
                next == join_frontier(before.workers, before.joined),
                status == before.shutdown_status(),
            decreases self.workers@.len() - next,
        {
            let state = self.workers[next].state();
            if state == WorkerState::Terminated {
                next += 1;
            } else {
                if state == WorkerState::Failed {
                    status = ShutdownStatus::WorkerFailed(next);
                } else {
                    status = ShutdownStatus::Waiting(next);
                }
                break;
            }
        }
        self.joined = next;
        proof {
            lemma_shutdown_inv(before);
        }
        status
    }
}

} // verus!
