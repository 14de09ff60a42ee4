//! Steps of workers and histories of a pool: the words in which the laws
//! speak of everything that can happen to a pool.

use crate::model::PoolState;
use vstd::prelude::*;

verus! {

/// One step of one worker.
pub enum WorkerStep {
    /// A receive attempt of this worker.
    Receive(nat),
    /// The job of this worker returns.
    Finish(nat),
    /// The job of this worker ends abnormally.
    Fail(nat),
}

/// Whether the worker can take this step: a receive attempt needs an idle
/// worker, and a job returns or ends only on a running one.
pub open spec fn permitted<J>(s: PoolState<J>, step: WorkerStep) -> bool {
    match step {
        WorkerStep::Receive(w) => s.is_idle(w),
        WorkerStep::Finish(w) => s.is_running(w),
        WorkerStep::Fail(w) => s.is_running(w),
    }
}

/// The state after this step.
pub open spec fn after_step<J>(s: PoolState<J>, step: WorkerStep) -> PoolState<J> {
    match step {
        WorkerStep::Receive(w) => s.after_receive(w),
        WorkerStep::Finish(w) => s.after_finish(w),
        WorkerStep::Fail(w) => s.after_failure(w),
    }
}

/// Whether the steps can be taken one after the other, starting from `s`.
pub open spec fn permitted_run<J>(s: PoolState<J>, steps: Seq<WorkerStep>) -> bool
    decreases steps.len(),
{
    steps.len() == 0 || (permitted(s, steps[0]) && permitted_run(after_step(s, steps[0]), steps.skip(1)))
}

/// The state after all the steps.
pub open spec fn after_run<J>(s: PoolState<J>, steps: Seq<WorkerStep>) -> PoolState<J>
    decreases steps.len(),
{
    if steps.len() == 0 {
        s
    } else {
        after_run(after_step(s, steps[0]), steps.skip(1))
    }
}

/// The steps in which each of these workers, in turn, makes one receive
/// attempt.
pub open spec fn receive_steps(workers: Seq<nat>) -> Seq<WorkerStep> {
    Seq::new(workers.len(), |i: int| WorkerStep::Receive(workers[i]))
}

/// One thing that happens to a pool.
pub enum PoolEvent<J> {
    /// The caller submits this job.
    Submit(J),
    /// A worker takes this step.
    Worker(WorkerStep),
    /// The caller shuts the pool down, for the first time or again.
    Shutdown,
}

/// Whether the event can happen in this state: a job is submitted only to
/// a pool that accepts jobs, and a worker takes only the steps that
/// [`permitted`] allows.
pub open spec fn event_permitted<J>(s: PoolState<J>, event: PoolEvent<J>) -> bool {
    match event {
        PoolEvent::Submit(_) => s.accepting(),
        PoolEvent::Worker(step) => permitted(s, step),
        PoolEvent::Shutdown => true,
    }
}

/// The state after this event.
pub open spec fn after_event<J>(s: PoolState<J>, event: PoolEvent<J>) -> PoolState<J> {
    match event {
        PoolEvent::Submit(job) => s.after_execute(job),
        PoolEvent::Worker(step) => after_step(s, step),
        PoolEvent::Shutdown => s.after_shutdown(),
    }
}

/// Whether the events can happen one after the other, starting from `s`.
pub open spec fn history_permitted<J>(s: PoolState<J>, events: Seq<PoolEvent<J>>) -> bool
    decreases events.len(),
{
    events.len() == 0 || (event_permitted(s, events[0]) && history_permitted(
        after_event(s, events[0]),
        events.skip(1),
    ))
}

/// The state after all the events.
pub open spec fn after_history<J>(s: PoolState<J>, events: Seq<PoolEvent<J>>) -> PoolState<J>
    decreases events.len(),
{
    if events.len() == 0 {
        s
    } else {
        after_history(after_event(s, events[0]), events.skip(1))
    }
}

/// The jobs submitted by the events, in order.
pub open spec fn submitted<J>(events: Seq<PoolEvent<J>>) -> Seq<J>
    decreases events.len(),
{
    if events.len() == 0 {
        Seq::empty()
    } else {
        match events[0] {
            PoolEvent::Submit(job) => seq![job] + submitted(events.skip(1)),
            _ => submitted(events.skip(1)),
        }
    }
}

} // verus!
