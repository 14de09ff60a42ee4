use http_server::{JobQueue, Received, SendFailed};

#[test]
fn new_queue_is_empty_and_connected() {
    let q: JobQueue<u32> = JobQueue::new();
    assert_eq!(q.len(), 0);
    assert!(q.is_empty());
    assert!(q.has_sender());
    assert!(q.has_receiver());
}

#[test]
fn queue_hands_jobs_out_in_submission_order() {
    let mut q: JobQueue<u32> = JobQueue::new();
    for job in [10, 20, 30] {
        assert!(q.send(job).is_ok());
    }
    assert_eq!(q.len(), 3);
    assert!(matches!(q.receive(), Received::Job(10)));
    assert!(matches!(q.receive(), Received::Job(20)));
    assert_eq!(q.len(), 1);
    assert!(matches!(q.receive(), Received::Job(30)));
    assert!(q.is_empty());
}

#[test]
fn empty_open_queue_makes_the_receiver_wait() {
    let mut q: JobQueue<u32> = JobQueue::new();
    assert!(matches!(q.receive(), Received::Empty));
    assert!(matches!(q.receive(), Received::Empty));
    assert!(q.send(1).is_ok());
    assert!(matches!(q.receive(), Received::Job(1)));
    assert!(matches!(q.receive(), Received::Empty));
}

#[test]
fn empty_closed_queue_reports_disconnect() {
    let mut q: JobQueue<u32> = JobQueue::new();
    q.close();
    assert!(!q.has_sender());
    assert!(matches!(q.receive(), Received::Disconnected));
    assert!(matches!(q.receive(), Received::Disconnected));
}

#[test]
fn closed_queue_drains_before_it_reports_disconnect() {
    let mut q: JobQueue<&str> = JobQueue::new();
    assert!(q.send("first").is_ok());
    assert!(q.send("second").is_ok());
    q.close();
    assert_eq!(q.len(), 2);
    assert!(matches!(q.receive(), Received::Job("first")));
    assert!(matches!(q.receive(), Received::Job("second")));
    assert!(matches!(q.receive(), Received::Disconnected));
}

#[test]
fn send_without_consumer_fails_and_returns_the_job() {
    let mut q: JobQueue<String> = JobQueue::new();
    q.disconnect();
    assert!(!q.has_receiver());
    match q.send(String::from("lost")) {
        Err(SendFailed(job)) => assert_eq!(job, "lost"),
        Ok(()) => panic!("a queue without consumer accepted a job"),
    }
    assert_eq!(q.len(), 0);
}

#[test]
fn send_after_close_fails_and_returns_the_job() {
    let mut q: JobQueue<u32> = JobQueue::new();
    assert!(q.send(1).is_ok());
    q.close();
    match q.send(2) {
        Err(SendFailed(job)) => assert_eq!(job, 2),
        Ok(()) => panic!("a closed queue accepted a job"),
    }
    assert_eq!(q.len(), 1);
    assert!(matches!(q.receive(), Received::Job(1)));
    assert!(matches!(q.receive(), Received::Disconnected));
}

#[test]
fn send_never_waits_for_a_receiver() {
    let mut q: JobQueue<usize> = JobQueue::new();
    for job in 0..1000 {
        assert!(q.send(job).is_ok());
    }
    assert_eq!(q.len(), 1000);
    for job in 0..1000 {
        match q.receive() {
            Received::Job(got) => assert_eq!(got, job),
            _ => panic!("job {} is missing", job),
        }
    }
    assert!(matches!(q.receive(), Received::Empty));
}
