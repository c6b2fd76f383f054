use std::cell::Cell;
use worker_pool::{PoolCreationError, ThreadPool};

#[test]
fn build_zero_is_an_error_and_spawns_nothing() {
    let spawned = Cell::new(0u32);
    let r = ThreadPool::build(0, |id: usize| {
        spawned.set(spawned.get() + 1);
        id
    });
    assert!(matches!(r, Err(PoolCreationError)));
    assert_eq!(spawned.get(), 0);
}

#[test]
fn build_starts_one_thread_per_worker() {
    let spawned = Cell::new(0u32);
    let pool = ThreadPool::build(4, |id: usize| {
        spawned.set(spawned.get() + 1);
        id * 10
    })
    .unwrap();
    assert_eq!(spawned.get(), 4);
    assert_eq!(pool.size(), 4);
    for id in 0..4 {
        let w = pool.worker(id);
        assert_eq!(w.id(), id);
        assert!(w.is_live());
    }
}

#[test]
fn new_with_one_worker() {
    let pool = ThreadPool::new(1, |id: usize| id + 100);
    assert_eq!(pool.size(), 1);
    assert!(pool.worker(0).is_live());
}

#[test]
fn shutdown_takes_handles_by_ascending_id() {
    let mut pool = ThreadPool::build(3, |id: usize| format!("thread-{id}")).unwrap();
    let taken = pool.take_threads();
    assert_eq!(
        taken,
        vec![
            (0, "thread-0".to_string()),
            (1, "thread-1".to_string()),
            (2, "thread-2".to_string())
        ]
    );
    for id in 0..3 {
        assert!(!pool.worker(id).is_live());
    }
    assert_eq!(pool.size(), 3);
}

#[test]
fn shutdown_skips_reaped_workers() {
    let mut pool = ThreadPool::build(2, |id: usize| id).unwrap();
    assert_eq!(pool.take_threads(), vec![(0, 0), (1, 1)]);
    assert_eq!(pool.take_threads(), Vec::<(usize, usize)>::new());
}
