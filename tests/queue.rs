use worker_pool::{JobQueue, Recv};

fn take(q: &mut JobQueue<u32>) -> Option<u32> {
    match q.recv() {
        Recv::Job(j) => Some(j),
        Recv::Empty => None,
        Recv::Closed => None,
    }
}

#[test]
fn new_queue_is_open_and_empty() {
    let mut q: JobQueue<u32> = JobQueue::new();
    assert!(q.is_open());
    assert_eq!(q.len(), 0);
    assert!(matches!(q.recv(), Recv::Empty));
}

#[test]
fn jobs_leave_in_submission_order() {
    let mut q = JobQueue::new();
    assert!(q.push(1).is_ok());
    assert!(q.push(2).is_ok());
    assert!(q.push(3).is_ok());
    assert_eq!(q.len(), 3);
    assert_eq!(take(&mut q), Some(1));
    assert!(q.push(4).is_ok());
    assert_eq!(take(&mut q), Some(2));
    assert_eq!(take(&mut q), Some(3));
    assert_eq!(take(&mut q), Some(4));
    assert!(matches!(q.recv(), Recv::Empty));
}

#[test]
fn closed_queue_refuses_and_hands_the_job_back() {
    let mut q = JobQueue::new();
    q.close();
    assert!(!q.is_open());
    assert_eq!(q.push(7), Err(7));
    assert_eq!(q.len(), 0);
    assert!(matches!(q.recv(), Recv::Closed));
}

#[test]
fn closed_queue_still_drains_pending_jobs() {
    let mut q = JobQueue::new();
    assert!(q.push(10).is_ok());
    assert!(q.push(20).is_ok());
    q.close();
    assert_eq!(take(&mut q), Some(10));
    assert_eq!(take(&mut q), Some(20));
    assert!(matches!(q.recv(), Recv::Closed));
    assert!(matches!(q.recv(), Recv::Closed));
}

#[test]
fn each_job_is_handed_out_once() {
    let mut q = JobQueue::new();
    for i in 0..100u32 {
        assert!(q.push(i).is_ok());
    }
    q.close();
    let mut seen = Vec::new();
    while let Some(j) = take(&mut q) {
        seen.push(j);
    }
    assert_eq!(seen, (0..100u32).collect::<Vec<u32>>());
    assert!(matches!(q.recv(), Recv::Closed));
}
