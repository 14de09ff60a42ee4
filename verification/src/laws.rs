//! What holds of every pool, whatever was submitted and however the workers
//! were scheduled. Each law is stated over the model of [`crate::model`] and
//! follows from its invariant.

use crate::history::{
    after_event, after_history, after_run, after_step, history_permitted, permitted, permitted_run,
    receive_steps, submitted, PoolEvent, WorkerStep,
};
use crate::model::{
    join_frontier, lemma_execute_inv, lemma_failure_inv, lemma_finish_inv, lemma_init_inv,
    lemma_join_frontier, lemma_receive_inv, lemma_shutdown_inv, JobStatus, PoolState, ShutdownStatus,
};
use crate::worker::{WorkerAction, WorkerState, WorkerView};
use vstd::prelude::*;

verus! {

/// A new pool has exactly `size` workers. They are named `0 .. size` and
/// all wait for a job; nothing was submitted and nobody is joined.
pub proof fn lemma_new_pool_has_size_idle_workers<J>(size: nat)
    requires
        size > 0,
    ensures
        PoolState::<J>::init(size).size() == size,
        forall|w: nat| w < size ==> #[trigger] PoolState::<J>::init(size).is_idle(w),
        forall|w: int| 0 <= w < size ==> (#[trigger] PoolState::<J>::init(size).workers[w]).id == w,
        PoolState::<J>::init(size).queue.accepted.len() == 0,
        PoolState::<J>::init(size).accepting(),
        PoolState::<J>::init(size).joined == 0,
{
    let s = PoolState::<J>::init(size);
    assert(s.workers[0].state.is_live());
}

/// The queue is first-in, first-out and neither loses nor repeats a job:
/// the jobs handed out so far, in the order in which they left, followed by
/// the jobs still waiting, are the jobs accepted, in the order of
/// submission. A job is still waiting exactly if it is marked `Queued`.
pub proof fn lemma_jobs_leave_in_submission_order<J>(s: PoolState<J>)
    requires
        s.inv(),
    ensures
        s.queue.handed_out() + s.queue.pending() == s.queue.accepted,
        forall|k: int|
            0 <= k < s.queue.accepted.len() ==> ((#[trigger] s.status[k]) is Queued <==> s.queue.delivered
                <= k),
{
    assert forall|k: int| 0 <= k < s.queue.accepted.len() implies ((#[trigger] s.status[k]) is Queued
        <==> s.queue.delivered <= k) by {
        assert(s.job_ok(k));
    }
}

/// A job that is being executed is held by exactly one worker, and a worker
/// holds one job at a time: if the jobs at positions `j` and `k` are marked
/// as running on workers `a` and `b`, then the positions are equal exactly
/// if the workers are.
pub proof fn lemma_running_jobs_have_distinct_workers<J>(s: PoolState<J>, j: int, k: int, a: nat, b: nat)
    requires
        s.inv(),
        0 <= j < s.status.len(),
        0 <= k < s.status.len(),
        s.status[j] == JobStatus::Running(a),
        s.status[k] == JobStatus::Running(b),
    ensures
        s.is_running(a),
        s.is_running(b),
        (j == k) <==> (a == b),
{
    assert(s.job_ok(j));
    assert(s.job_ok(k));
}

/// No job is executed twice: the record of completions holds no position
/// twice, and it holds a position exactly if that job is marked `Done`.
pub proof fn lemma_no_job_completes_twice<J>(s: PoolState<J>)
    requires
        s.inv(),
    ensures
        s.finished.no_duplicates(),
        forall|k: nat|
            s.finished.contains(k) <==> (k < s.status.len() && (#[trigger] s.status[k as int]) is Done),
{
    assert forall|k: nat|
        s.finished.contains(k) <==> (k < s.status.len() && (#[trigger] s.status[k as int]) is Done) by {
        if s.finished.contains(k) {
            let i = choose|i: int| 0 <= i < s.finished.len() && s.finished[i] == k;
            assert(s.completion_ok(i));
        }
        if k < s.status.len() && s.status[k as int] is Done {
            assert(s.job_ok(k as int));
        }
    }
}

/// Any idle worker that makes a receive attempt while a job is waiting gets
/// the oldest waiting job, whichever worker it is: no worker is preferred
/// and none is passed over.
pub proof fn lemma_any_idle_worker_claims_the_oldest_job<J>(s: PoolState<J>, w: nat)
    requires
        s.inv(),
        s.is_idle(w),
        s.queue.pending().len() > 0,
    ensures
        s.next_action() == WorkerAction::Run(s.queue.pending()[0]),
        s.after_receive(w).is_running(w),
        s.after_receive(w).holding[w as int] == s.queue.delivered,
        s.after_receive(w).status[s.queue.delivered as int] == JobStatus::Running(w),
        s.after_receive(w).queue.pending() == s.queue.pending().skip(1),
{
}

/// A worker that is executing a job cannot claim another. So when two
/// receive attempts follow each other with no job returning in between and
/// at least two jobs are waiting, the two oldest jobs go to two different
/// workers: one worker does not take all the work while another is idle.
pub proof fn lemma_consecutive_claims_go_to_distinct_workers<J>(s: PoolState<J>, a: nat, b: nat)
    requires
        s.inv(),
        s.queue.pending().len() >= 2,
        s.is_idle(a),
        s.after_receive(a).is_idle(b),
    ensures
        a != b,
        s.after_receive(a).after_receive(b).status[s.queue.delivered as int] == JobStatus::Running(a),
        s.after_receive(a).after_receive(b).status[s.queue.delivered as int + 1] == JobStatus::Running(b),
        s.after_receive(a).after_receive(b).is_running(a),
        s.after_receive(a).after_receive(b).is_running(b),
{
}

proof fn lemma_claims_leave_running_workers_alone<J>(s: PoolState<J>, claimants: Seq<nat>, v: nat, k: int)
    requires
        s.inv(),
        permitted_run(s, receive_steps(claimants)),
        0 <= k < s.status.len(),
        s.status[k] == JobStatus::Running(v),
    ensures
        !claimants.contains(v),
        after_run(s, receive_steps(claimants)).status[k] == JobStatus::Running(v),
    decreases claimants.len(),
{
    assert(s.job_ok(k));
    if claimants.len() > 0 {
        let first = claimants[0];
        let next = s.after_receive(first);
        assert(receive_steps(claimants)[0] == WorkerStep::Receive(first));
        assert(receive_steps(claimants).skip(1) =~= receive_steps(claimants.skip(1)));
        lemma_receive_inv(s, first);
        lemma_claims_leave_running_workers_alone(next, claimants.skip(1), v, k);
        assert forall|i: int| 0 <= i < claimants.len() implies claimants[i] != v by {
            if i > 0 {
                assert(claimants.skip(1)[i - 1] == claimants[i]);
            }
        }
    }
}

/// Work is spread over the idle workers. When some workers make one
/// receive attempt each, one after the other, with no job returning in
/// between, and at least as many jobs are waiting, then these workers are
/// all different, and the waiting jobs go to them in order: the oldest to
/// the first, the next to the second, and so on. No worker takes two jobs
/// while another is idle.
pub proof fn lemma_claims_without_returns_spread_the_jobs<J>(s: PoolState<J>, claimants: Seq<nat>)
    requires
        s.inv(),
        permitted_run(s, receive_steps(claimants)),
        claimants.len() <= s.queue.pending().len(),
    ensures
        claimants.no_duplicates(),
        after_run(s, receive_steps(claimants)).inv(),
        after_run(s, receive_steps(claimants)).queue.delivered == s.queue.delivered + claimants.len(),
        forall|i: int|
            0 <= i < claimants.len() ==> (#[trigger] after_run(
                s,
                receive_steps(claimants),
            ).status[s.queue.delivered + i]) == JobStatus::Running(claimants[i]),
    decreases claimants.len(),
{
    if claimants.len() > 0 {
        let first = claimants[0];
        let rest = claimants.skip(1);
        let next = s.after_receive(first);
        let last = after_run(s, receive_steps(claimants));
        assert(receive_steps(claimants)[0] == WorkerStep::Receive(first));
        assert(receive_steps(claimants).skip(1) =~= receive_steps(rest));
        lemma_receive_inv(s, first);
        lemma_claims_without_returns_spread_the_jobs(next, rest);
        lemma_claims_leave_running_workers_alone(next, rest, first, s.queue.delivered as int);
        assert forall|i: int, j: int| 0 <= i < j < claimants.len() implies claimants[i] != claimants[j] by {
            assert(rest[j - 1] == claimants[j]);
            if i > 0 {
                assert(rest[i - 1] == claimants[i]);
            }
        }
        assert forall|i: int| 0 <= i < claimants.len() implies (#[trigger] last.status[s.queue.delivered
            + i]) == JobStatus::Running(claimants[i]) by {
            if i > 0 {
                assert(rest[i - 1] == claimants[i]);
                assert(last.status[next.queue.delivered + (i - 1)] == JobStatus::Running(rest[i - 1]));
            }
        }
    }
}

/// Shutting down discards nothing: the jobs accepted, the jobs waiting and
/// the workers are what they were. Only the producer end goes, and workers
/// that have terminated are joined.
pub proof fn lemma_shutdown_keeps_waiting_jobs<J>(s: PoolState<J>)
    requires
        s.inv(),
    ensures
        s.after_shutdown().queue.pending() == s.queue.pending(),
        s.after_shutdown().queue.accepted == s.queue.accepted,
        s.after_shutdown().status == s.status,
        s.after_shutdown().workers == s.workers,
        s.after_shutdown().finished == s.finished,
        !s.after_shutdown().accepting(),
        s.joined <= s.after_shutdown().joined <= s.size(),
{
    lemma_join_frontier(s.workers, s.joined);
}

/// A worker is told to leave only when the queue is drained: the disconnect
/// signal comes exactly when the producer end is gone and no job is
/// waiting. Jobs accepted before the shutdown are still handed out.
pub proof fn lemma_exit_only_when_drained<J>(s: PoolState<J>)
    requires
        s.inv(),
    ensures
        s.next_action() is Exit <==> (!s.queue.sender && s.queue.pending().len() == 0),
        s.next_action() is Wait <==> (s.queue.sender && s.queue.pending().len() == 0),
        s.next_action() is Run <==> s.queue.pending().len() > 0,
{
}

/// After shutdown has begun, an idle worker that finds the queue empty
/// leaves at its next receive attempt, also when the queue was empty all
/// along. Nothing else changes: no job is touched and no other worker.
pub proof fn lemma_idle_worker_leaves_a_drained_queue<J>(s: PoolState<J>, w: nat)
    requires
        s.inv(),
        s.is_idle(w),
        !s.queue.sender,
        s.queue.pending().len() == 0,
    ensures
        s.next_action() is Exit,
        s.after_receive(w).workers[w as int].state is Terminated,
        s.after_receive(w).status == s.status,
        s.after_receive(w).finished == s.finished,
        s.after_receive(w).queue.accepted == s.queue.accepted,
        forall|v: int|
            0 <= v < s.size() && v != w ==> (#[trigger] s.after_receive(w).workers[v]) == s.workers[v],
{
}

/// Shutdown reports `Stopped` exactly when every worker has terminated,
/// and then every worker is joined.
pub proof fn lemma_stopped_iff_all_terminated<J>(s: PoolState<J>)
    requires
        s.inv(),
    ensures
        s.shutdown_status() == ShutdownStatus::Stopped <==> s.all_terminated(),
        s.shutdown_status() == ShutdownStatus::Stopped <==> s.after_shutdown().joined == s.size(),
{
    lemma_join_frontier(s.workers, s.joined);
    if join_frontier(s.workers, s.joined) >= s.workers.len() {
        assert forall|w: int| 0 <= w < s.workers.len() implies (#[trigger] s.workers[w]).state is Terminated by {
            assert(s.worker_ok(w));
        }
    }
}

/// Shutdown does not complete while a job is waiting or being executed:
/// once every worker is joined, the queue is empty, no worker is running,
/// and every job that was ever accepted has been executed to completion,
/// exactly once.
pub proof fn lemma_stopped_pool_has_run_every_job<J>(s: PoolState<J>)
    requires
        s.inv(),
        s.joined == s.size(),
    ensures
        !s.queue.sender,
        s.queue.pending().len() == 0,
        s.all_terminated(),
        forall|k: int| 0 <= k < s.queue.accepted.len() ==> (#[trigger] s.status[k]) is Done,
        forall|k: nat| k < s.queue.accepted.len() ==> s.finished.contains(k),
        s.finished.no_duplicates(),
        s.finished.len() == s.queue.accepted.len(),
{
    assert forall|w: int| 0 <= w < s.workers.len() implies (#[trigger] s.workers[w]).state is Terminated by {
        assert(s.worker_ok(w));
    }
    assert(s.worker_ok(0));
    assert forall|k: int| 0 <= k < s.queue.accepted.len() implies (#[trigger] s.status[k]) is Done by {
        assert(s.job_ok(k));
    }
    assert forall|k: nat| k < s.queue.accepted.len() implies s.finished.contains(k) by {
        assert(s.job_ok(k as int));
    }
    let n = s.queue.accepted.len();
    assert(s.finished.to_set() =~= Set::<nat>::range(0, n)) by {
        assert forall|k: nat| s.finished.to_set().contains(k) <==> Set::<nat>::range(0, n).contains(k) by {
            if s.finished.contains(k) {
                let i = choose|i: int| 0 <= i < s.finished.len() && s.finished[i] == k;
                assert(s.completion_ok(i));
            }
        }
    }
    s.finished.unique_seq_to_set();
    vstd::set_lib::range_set_properties::<nat>(0, n);
}

/// What one live worker still has to do before it has left its loop,
/// counted in steps, if the queue is empty.
pub open spec fn steps_left(state: WorkerState) -> nat {
    match state {
        WorkerState::Running => 2,
        WorkerState::Idle => 1,
        WorkerState::Terminated => 0,
        WorkerState::Failed => 0,
    }
}

/// The sum of [`steps_left`] over the workers.
pub open spec fn worker_steps_left(workers: Seq<WorkerView>) -> nat
    decreases workers.len(),
{
    if workers.len() == 0 {
        0
    } else {
        worker_steps_left(workers.drop_last()) + steps_left(workers.last().state)
    }
}

/// A bound on the number of steps that the workers of a pool can still
/// take once the producer end is gone: two for each waiting job, which is
/// claimed and then returns, and what each worker has left.
pub open spec fn remaining_work<J>(s: PoolState<J>) -> nat {
    2 * s.queue.pending().len() + worker_steps_left(s.workers)
}

proof fn lemma_worker_steps_left_update(workers: Seq<WorkerView>, w: int, worker: WorkerView)
    requires
        0 <= w < workers.len(),
    ensures
        worker_steps_left(workers.update(w, worker)) + steps_left(workers[w].state) == worker_steps_left(
            workers,
        ) + steps_left(worker.state),
    decreases workers.len(),
{
    if w == workers.len() - 1 {
        assert(workers.update(w, worker).drop_last() =~= workers.drop_last());
    } else {
        lemma_worker_steps_left_update(workers.drop_last(), w, worker);
        assert(workers.update(w, worker).drop_last() =~= workers.drop_last().update(w, worker));
    }
}

proof fn lemma_no_steps_left_means_no_live_worker(workers: Seq<WorkerView>)
    ensures
        worker_steps_left(workers) == 0 <==> forall|w: int|
            0 <= w < workers.len() ==> !(#[trigger] workers[w]).state.is_live(),
    decreases workers.len(),
{
    if workers.len() > 0 {
        let rest = workers.drop_last();
        lemma_no_steps_left_means_no_live_worker(rest);
        if worker_steps_left(workers) == 0 {
            assert forall|w: int| 0 <= w < workers.len() implies !(#[trigger] workers[w]).state.is_live() by {
                if w < rest.len() {
                    assert(rest[w] == workers[w]);
                }
            }
        } else {
            if worker_steps_left(rest) != 0 {
                let w = choose|w: int| 0 <= w < rest.len() && (#[trigger] rest[w]).state.is_live();
                assert(workers[w].state.is_live());
            } else {
                assert(workers[workers.len() - 1].state.is_live());
            }
        }
    }
}

/// Once the producer end is gone, every step of a worker brings the pool
/// closer to rest: it keeps the invariant, the producer end stays gone, and
/// [`remaining_work`] goes down. In particular a receive attempt never
/// tells the worker to wait.
pub proof fn lemma_step_after_close_makes_progress<J>(s: PoolState<J>, step: WorkerStep)
    requires
        s.inv(),
        !s.queue.sender,
        permitted(s, step),
    ensures
        after_step(s, step).inv(),
        !after_step(s, step).queue.sender,
        remaining_work(after_step(s, step)) < remaining_work(s),
        !(s.next_action() is Wait),
{
    match step {
        WorkerStep::Receive(w) => {
            lemma_receive_inv(s, w);
            let found = s.queue.next_received();
            lemma_worker_steps_left_update(
                s.workers,
                w as int,
                s.workers[w as int].after_receive(found),
            );
        },
        WorkerStep::Finish(w) => {
            lemma_finish_inv(s, w);
            lemma_worker_steps_left_update(s.workers, w as int, s.workers[w as int].after_finish());
        },
        WorkerStep::Fail(w) => {
            lemma_failure_inv(s, w);
            lemma_worker_steps_left_update(s.workers, w as int, s.workers[w as int].after_failure());
        },
    }
}

/// Shutdown always comes to an end. Once the producer end is gone, the
/// workers can take no more than [`remaining_work`] steps in all, however
/// they are scheduled, and this holds also when the queue was empty at that
/// moment.
pub proof fn lemma_workers_stop_after_close<J>(s: PoolState<J>, steps: Seq<WorkerStep>)
    requires
        s.inv(),
        !s.queue.sender,
        permitted_run(s, steps),
    ensures
        after_run(s, steps).inv(),
        !after_run(s, steps).queue.sender,
        steps.len() + remaining_work(after_run(s, steps)) <= remaining_work(s),
    decreases steps.len(),
{
    if steps.len() > 0 {
        lemma_step_after_close_makes_progress(s, steps[0]);
        lemma_workers_stop_after_close(after_step(s, steps[0]), steps.skip(1));
    }
}

/// While a worker is in its loop it can take a step, and when none is, the
/// pool is at rest: no work remains, and if no worker died, every worker
/// has terminated and shutdown reports `Stopped`.
pub proof fn lemma_pool_at_rest_is_stopped<J>(s: PoolState<J>)
    requires
        s.inv(),
        !s.queue.sender,
    ensures
        forall|w: nat|
            s.is_worker(w) && (#[trigger] s.workers[w as int]).state.is_live() ==> (permitted(
                s,
                WorkerStep::Receive(w),
            ) || permitted(s, WorkerStep::Finish(w))),
        !s.has_live_worker() ==> worker_steps_left(s.workers) == 0,
        !s.has_live_worker() && (forall|w: int|
            0 <= w < s.workers.len() ==> !((#[trigger] s.workers[w]).state is Failed))
            ==> s.shutdown_status() == ShutdownStatus::Stopped && s.queue.pending().len() == 0,
{
    lemma_no_steps_left_means_no_live_worker(s.workers);
    if !s.has_live_worker() && (forall|w: int|
        0 <= w < s.workers.len() ==> !((#[trigger] s.workers[w]).state is Failed)) {
        assert forall|w: int| 0 <= w < s.workers.len() implies (#[trigger] s.workers[w]).state is Terminated by {
            assert(!s.workers[w].state.is_live());
        }
        lemma_stopped_iff_all_terminated(s);
        assert(s.worker_ok(0));
    }
}

/// The size of a pool is fixed when it is made and is never zero: no step
/// of a worker, no submission and no shutdown changes the number of workers
/// or their names.
pub proof fn lemma_pool_size_is_fixed<J>(s: PoolState<J>, step: WorkerStep, job: J)
    requires
        s.inv(),
        permitted(s, step),
    ensures
        s.size() > 0,
        after_step(s, step).size() == s.size(),
        s.after_execute(job).size() == s.size(),
        s.after_shutdown().size() == s.size(),
        forall|w: int| 0 <= w < s.size() ==> (#[trigger] after_step(s, step).workers[w]).id == w,
{
    assert forall|w: int| 0 <= w < s.size() implies (#[trigger] after_step(s, step).workers[w]).id == w by {
        assert(s.worker_ok(w));
    }
}

/// A step of one worker leaves every other worker as it was, and a worker
/// that has left its loop never comes back: `Terminated` and `Failed` are
/// final.
pub proof fn lemma_exited_worker_stays_exited<J>(s: PoolState<J>, step: WorkerStep, v: nat)
    requires
        s.inv(),
        permitted(s, step),
        s.is_worker(v),
    ensures
        step != WorkerStep::Receive(v) && step != WorkerStep::Finish(v) && step != WorkerStep::Fail(v)
            ==> after_step(s, step).workers[v as int] == s.workers[v as int],
        !s.workers[v as int].state.is_live() ==> after_step(s, step).workers[v as int] == s.workers[v as int],
        !permitted(s, WorkerStep::Receive(v)) && !permitted(s, WorkerStep::Finish(v)) && !permitted(
            s,
            WorkerStep::Fail(v),
        ) <==> !s.workers[v as int].state.is_live(),
{
}

/// Shutting down cannot be undone: once the producer end is gone, no step
/// of a worker and no further shutdown brings it back, no job is accepted
/// any more, and the number of joined workers never goes down.
pub proof fn lemma_shutdown_is_irreversible<J>(s: PoolState<J>, step: WorkerStep)
    requires
        s.inv(),
        !s.queue.sender,
        permitted(s, step),
    ensures
        !s.accepting(),
        !after_step(s, step).queue.sender,
        !s.after_shutdown().queue.sender,
        after_step(s, step).joined == s.joined,
        s.after_shutdown().joined >= s.joined,
        after_step(s, step).queue.accepted == s.queue.accepted,
{
    lemma_join_frontier(s.workers, s.joined);
}

/// Shutting down twice is shutting down once.
pub proof fn lemma_shutdown_is_idempotent<J>(s: PoolState<J>)
    requires
        s.inv(),
    ensures
        s.after_shutdown().after_shutdown() == s.after_shutdown(),
        s.after_shutdown().shutdown_status() == s.shutdown_status(),
{
    lemma_join_frontier(s.workers, s.joined);
    let next = join_frontier(s.workers, s.joined);
    assert(join_frontier(s.workers, next) == next);
}

/// A stopped pool is at its end: no worker can take a step, no job is
/// accepted, and a further shutdown changes nothing.
pub proof fn lemma_stopped_pool_stays_stopped<J>(s: PoolState<J>, step: WorkerStep)
    requires
        s.inv(),
        s.joined == s.size(),
    ensures
        !permitted(s, step),
        !s.accepting(),
        s.after_shutdown() == s,
        s.shutdown_status() == ShutdownStatus::Stopped,
{
    lemma_stopped_pool_has_run_every_job(s);
    lemma_stopped_iff_all_terminated(s);
}

/// Whatever happens to a pool, in whatever order, the invariant holds
/// afterwards, and the jobs it has accepted are the jobs it had accepted
/// before followed by the jobs submitted since, in the order of submission.
pub proof fn lemma_every_history_keeps_the_invariant<J>(s: PoolState<J>, events: Seq<PoolEvent<J>>)
    requires
        s.inv(),
        history_permitted(s, events),
    ensures
        after_history(s, events).inv(),
        after_history(s, events).size() == s.size(),
        after_history(s, events).queue.accepted == s.queue.accepted + submitted(events),
    decreases events.len(),
{
    if events.len() == 0 {
        assert(s.queue.accepted + submitted(events) =~= s.queue.accepted);
    } else {
        let next = after_event(s, events[0]);
        match events[0] {
            PoolEvent::Submit(job) => {
                lemma_execute_inv(s, job);
            },
            PoolEvent::Worker(step) => {
                match step {
                    WorkerStep::Receive(w) => lemma_receive_inv(s, w),
                    WorkerStep::Finish(w) => lemma_finish_inv(s, w),
                    WorkerStep::Fail(w) => lemma_failure_inv(s, w),
                }
            },
            PoolEvent::Shutdown => {
                lemma_shutdown_inv(s);
            },
        }
        lemma_every_history_keeps_the_invariant(next, events.skip(1));
        assert(next.queue.accepted + submitted(events.skip(1)) =~= s.queue.accepted + submitted(events));
    }
}

/// For any pool size, any sequence of submitted jobs and any scheduling of
/// the workers: when the pool has stopped, every submitted job has been
/// executed exactly once. The record of completions then holds each
/// position of the sequence of submitted jobs once and nothing else, and no
/// job is left in the queue or in the hands of a worker.
pub proof fn lemma_every_submitted_job_runs_exactly_once<J>(size: nat, events: Seq<PoolEvent<J>>)
    requires
        size > 0,
        history_permitted(PoolState::<J>::init(size), events),
        after_history(PoolState::<J>::init(size), events).joined == size,
    ensures
        after_history(PoolState::<J>::init(size), events).queue.accepted == submitted(events),
        after_history(PoolState::<J>::init(size), events).queue.pending().len() == 0,
        after_history(PoolState::<J>::init(size), events).finished.len() == submitted(events).len(),
        after_history(PoolState::<J>::init(size), events).finished.no_duplicates(),
        forall|k: nat|
            k < submitted(events).len() <==> after_history(
                PoolState::<J>::init(size),
                events,
            ).finished.contains(k),
        forall|k: int|
            0 <= k < submitted(events).len() ==> (#[trigger] after_history(
                PoolState::<J>::init(size),
                events,
            ).status[k]) is Done,
{
    let first = PoolState::<J>::init(size);
    let last = after_history(first, events);
    lemma_init_inv::<J>(size);
    lemma_every_history_keeps_the_invariant(first, events);
    assert(first.queue.accepted + submitted(events) =~= submitted(events));
    lemma_stopped_pool_has_run_every_job(last);
    assert forall|k: nat| k < submitted(events).len() <==> last.finished.contains(k) by {
        if last.finished.contains(k) {
            let i = choose|i: int| 0 <= i < last.finished.len() && last.finished[i] == k;
            assert(last.completion_ok(i));
        }
    }
}

} // verus!
