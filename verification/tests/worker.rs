use http_server::{Received, Worker, WorkerAction, WorkerState};

#[test]
fn new_worker_is_idle_and_keeps_its_id() {
    let w = Worker::new(7);
    assert_eq!(w.id(), 7);
    assert_eq!(w.state(), WorkerState::Idle);
}

#[test]
fn worker_runs_the_job_it_receives() {
    let mut w = Worker::new(0);
    match w.on_receive(Received::Job(41u8)) {
        WorkerAction::Run(job) => assert_eq!(job, 41),
        _ => panic!("the worker did not run its job"),
    }
    assert_eq!(w.state(), WorkerState::Running);
    assert_eq!(w.id(), 0);
}

#[test]
fn worker_waits_on_an_empty_queue() {
    let mut w = Worker::new(2);
    assert!(matches!(w.on_receive(Received::<u8>::Empty), WorkerAction::Wait));
    assert_eq!(w.state(), WorkerState::Idle);
}

#[test]
fn worker_exits_on_disconnect() {
    let mut w = Worker::new(3);
    assert!(matches!(w.on_receive(Received::<u8>::Disconnected), WorkerAction::Exit));
    assert_eq!(w.state(), WorkerState::Terminated);
    assert_eq!(w.id(), 3);
}

#[test]
fn worker_is_idle_again_after_its_job() {
    let mut w = Worker::new(1);
    assert!(matches!(w.on_receive(Received::Job(5u8)), WorkerAction::Run(5)));
    w.on_finish();
    assert_eq!(w.state(), WorkerState::Idle);
    assert!(matches!(w.on_receive(Received::Job(6u8)), WorkerAction::Run(6)));
    w.on_finish();
    assert!(matches!(w.on_receive(Received::<u8>::Disconnected), WorkerAction::Exit));
    assert_eq!(w.state(), WorkerState::Terminated);
}

#[test]
fn worker_dies_with_a_failing_job() {
    let mut w = Worker::new(4);
    assert!(matches!(w.on_receive(Received::Job(5u8)), WorkerAction::Run(5)));
    w.on_failure();
    assert_eq!(w.state(), WorkerState::Failed);
    assert_eq!(w.id(), 4);
}
