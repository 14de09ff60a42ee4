use http_server::{PoolPhase, ShutdownStatus, ThreadPool, WorkerAction, WorkerState};
use std::cell::RefCell;
use std::rc::Rc;

type Job = Box<dyn FnOnce()>;

fn claim(pool: &mut ThreadPool<Job>, id: usize) -> Job {
    match pool.receive(id) {
        WorkerAction::Run(job) => job,
        WorkerAction::Wait => panic!("worker {} was told to wait", id),
        WorkerAction::Exit => panic!("worker {} was told to exit", id),
    }
}

/// Runs worker `id` as its thread would: until the queue tells it to exit.
fn run_until_exit(pool: &mut ThreadPool<Job>, id: usize) {
    loop {
        match pool.receive(id) {
            WorkerAction::Run(job) => {
                job();
                pool.finish(id);
            }
            WorkerAction::Wait => panic!("worker {} would wait for ever", id),
            WorkerAction::Exit => return,
        }
    }
}

#[test]
fn slow_job_does_not_hold_up_the_other_worker() {
    let record: Rc<RefCell<Vec<&'static str>>> = Rc::new(RefCell::new(Vec::new()));
    let mut pool: ThreadPool<Job> = ThreadPool::new(2);
    let for_a = Rc::clone(&record);
    pool.execute(Box::new(move || for_a.borrow_mut().push("A")));
    let for_b = Rc::clone(&record);
    pool.execute(Box::new(move || for_b.borrow_mut().push("B")));

    // Worker 0 claims A and is busy with it for a while.
    let job_a = claim(&mut pool, 0);
    assert_eq!(pool.worker_state(0), WorkerState::Running);
    // Meanwhile worker 1 claims B and runs it at once.
    let job_b = claim(&mut pool, 1);
    job_b();
    pool.finish(1);
    assert_eq!(*record.borrow(), vec!["B"]);
    // Then A comes to its end.
    job_a();
    pool.finish(0);
    assert_eq!(*record.borrow(), vec!["B", "A"]);

    assert_eq!(pool.shutdown(), ShutdownStatus::Waiting(0));
    run_until_exit(&mut pool, 0);
    run_until_exit(&mut pool, 1);
    assert_eq!(pool.shutdown(), ShutdownStatus::Stopped);
    let seen = record.borrow();
    assert_eq!(seen.iter().filter(|name| **name == "A").count(), 1);
    assert_eq!(seen.iter().filter(|name| **name == "B").count(), 1);
    assert_eq!(seen.len(), 2);
}

#[test]
fn single_worker_runs_jobs_in_submission_order() {
    let log: Rc<RefCell<Vec<usize>>> = Rc::new(RefCell::new(Vec::new()));
    let mut pool: ThreadPool<Job> = ThreadPool::new(1);
    for index in 0..3 {
        let log = Rc::clone(&log);
        pool.execute(Box::new(move || log.borrow_mut().push(index)));
    }
    assert_eq!(pool.pending(), 3);
    for _ in 0..3 {
        let job = claim(&mut pool, 0);
        job();
        pool.finish(0);
    }
    assert_eq!(*log.borrow(), vec![0, 1, 2]);
    assert!(matches!(pool.receive(0), WorkerAction::Wait));
    assert_eq!(pool.shutdown(), ShutdownStatus::Waiting(0));
    run_until_exit(&mut pool, 0);
    assert_eq!(pool.shutdown(), ShutdownStatus::Stopped);
    assert_eq!(*log.borrow(), vec![0, 1, 2]);
}

#[test]
fn pool_without_jobs_shuts_down_at_once() {
    let mut pool: ThreadPool<Job> = ThreadPool::new(3);
    assert_eq!(pool.shutdown(), ShutdownStatus::Waiting(0));
    for id in 0..3 {
        assert!(matches!(pool.receive(id), WorkerAction::Exit));
        assert_eq!(pool.worker_state(id), WorkerState::Terminated);
    }
    assert_eq!(pool.shutdown(), ShutdownStatus::Stopped);
    assert_eq!(pool.phase(), PoolPhase::Stopped);
    assert_eq!(pool.pending(), 0);
}

#[test]
fn shutdown_does_not_stop_before_queued_jobs_have_run() {
    let log: Rc<RefCell<Vec<usize>>> = Rc::new(RefCell::new(Vec::new()));
    let mut pool: ThreadPool<Job> = ThreadPool::new(2);
    for index in 0..6 {
        let log = Rc::clone(&log);
        pool.execute(Box::new(move || log.borrow_mut().push(index)));
    }
    assert_eq!(pool.shutdown(), ShutdownStatus::Waiting(0));
    assert_eq!(pool.pending(), 6);
    assert!(log.borrow().is_empty());
    // Worker 1 drains what it can and leaves; worker 0 has not moved yet.
    let first = claim(&mut pool, 0);
    run_until_exit(&mut pool, 1);
    assert_eq!(*log.borrow(), vec![1, 2, 3, 4, 5]);
    assert_eq!(pool.shutdown(), ShutdownStatus::Waiting(0));
    first();
    pool.finish(0);
    run_until_exit(&mut pool, 0);
    assert_eq!(pool.shutdown(), ShutdownStatus::Stopped);
    let mut seen = log.borrow().clone();
    seen.sort();
    assert_eq!(seen, vec![0, 1, 2, 3, 4, 5]);
}

#[test]
fn workers_come_to_rest_within_the_bound_after_shutdown() {
    // Two steps for each waiting job, two for the running worker, one for
    // each idle worker: 2 * 3 + 2 + 1 + 1 = 10.
    let count: Rc<RefCell<usize>> = Rc::new(RefCell::new(0));
    let mut pool: ThreadPool<Job> = ThreadPool::new(3);
    for _ in 0..4 {
        let count = Rc::clone(&count);
        pool.execute(Box::new(move || *count.borrow_mut() += 1));
    }
    let mut held: Vec<Option<Job>> = vec![None, None, None];
    held[1] = Some(claim(&mut pool, 1));
    pool.shutdown();
    let mut steps = 0;
    loop {
        let mut moved = false;
        for id in [2usize, 0, 1] {
            match pool.worker_state(id) {
                WorkerState::Running => {
                    let job = held[id].take().expect("a running worker holds a job");
                    job();
                    pool.finish(id);
                }
                WorkerState::Idle => match pool.receive(id) {
                    WorkerAction::Run(job) => held[id] = Some(job),
                    WorkerAction::Exit => {}
                    WorkerAction::Wait => panic!("a worker was told to wait after shutdown"),
                },
                _ => continue,
            }
            steps += 1;
            moved = true;
        }
        if !moved {
            break;
        }
    }
    assert_eq!(steps, 10);
    assert_eq!(*count.borrow(), 4);
    assert_eq!(pool.shutdown(), ShutdownStatus::Stopped);
}
