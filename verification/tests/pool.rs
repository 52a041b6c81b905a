use worker_pool::pool::{PoolError, ThreadPool, WorkerStatus};

#[test]
fn construct_spawns_requested_workers() {
    let pool = ThreadPool::new(4);
    assert_eq!(pool.workers.len(), 4);
    for (i, w) in pool.workers.iter().enumerate() {
        assert_eq!(w.id, i + 1);
        assert_eq!(w.status, WorkerStatus::Running);
    }
    assert!(pool.sender_open);
    assert_eq!(pool.queue.len(), 0);
    assert_eq!(pool.executed.len(), 0);
}

#[test]
fn zero_workers_is_rejected_at_construction() {
    match ThreadPool::try_new(0) {
        Err(PoolError::ZeroWorkers) => {}
        _ => panic!("a zero-sized pool must be refused"),
    }
}

#[test]
fn try_new_accepts_positive_sizes() {
    let pool = ThreadPool::try_new(3).unwrap();
    assert_eq!(pool.workers.len(), 3);
    assert!(pool.sender_open);
    for w in &pool.workers {
        assert_eq!(w.status, WorkerStatus::Running);
    }
}

#[test]
fn submit_then_drain_executes_all_jobs_once() {
    let mut pool = ThreadPool::new(2);
    let mut submitted = Vec::new();
    for _ in 0..5 {
        submitted.push(pool.execute());
    }
    assert_eq!(submitted, vec![0, 1, 2, 3, 4]);
    pool.shutdown();
    assert_eq!(pool.executed, vec![0, 1, 2, 3, 4]);
    for a in 0..pool.executed.len() {
        for b in a + 1..pool.executed.len() {
            assert_ne!(pool.executed[a], pool.executed[b]);
        }
    }
}

#[test]
fn no_job_delivered_to_two_workers() {
    let mut pool = ThreadPool::new(2);
    for _ in 0..4 {
        pool.execute();
    }
    // Both workers take turns dequeuing; every delivery is exclusive.
    assert_eq!(pool.worker_step(0), Some(0));
    assert_eq!(pool.worker_step(1), Some(1));
    assert_eq!(pool.worker_step(0), Some(2));
    assert_eq!(pool.worker_step(1), Some(3));
    assert_eq!(pool.executed, vec![0, 1, 2, 3]);
    assert_eq!(pool.executors, vec![1, 2, 1, 2]);
    for a in 0..pool.executed.len() {
        for b in a + 1..pool.executed.len() {
            assert_ne!(pool.executed[a], pool.executed[b]);
        }
    }
}

#[test]
fn concurrent_execution_bounded_by_pool_size() {
    let mut pool = ThreadPool::new(2);
    for _ in 0..3 {
        pool.execute();
    }
    let a = pool.worker_begin(0);
    let b = pool.worker_begin(1);
    assert_ne!(a, b);
    assert!(pool.workers[0].executing);
    assert!(pool.workers[1].executing);
    // Both workers are busy, so the third job waits on the queue.
    assert_eq!(pool.queue.len(), 1);
    pool.worker_finish(0);
    assert!(!pool.workers[0].executing);
    let c = pool.worker_begin(0);
    assert_ne!(c, a);
    assert_ne!(c, b);
    pool.worker_finish(0);
    pool.worker_finish(1);
    pool.shutdown();
    assert_eq!(pool.executed, vec![0, 1, 2]);
}

#[test]
fn shutdown_waits_for_running_job_before_join() {
    let mut pool = ThreadPool::new(1);
    pool.execute();
    pool.execute();
    let first = pool.worker_begin(0);
    assert_eq!(first, 0);
    // Shutdown must let the in-flight job finish, then drain the rest.
    pool.shutdown();
    assert_eq!(pool.executed, vec![0, 1]);
    assert!(!pool.workers[0].executing);
    assert_eq!(pool.workers[0].status, WorkerStatus::Exited);
}

#[test]
fn shutdown_blocks_until_queue_drained() {
    let mut pool = ThreadPool::new(2);
    for _ in 0..3 {
        pool.execute();
    }
    pool.shutdown();
    assert!(!pool.sender_open);
    assert_eq!(pool.queue.len(), 0);
    assert_eq!(pool.executed.len(), 3);
    for w in &pool.workers {
        assert_eq!(w.status, WorkerStatus::Exited);
    }
}

#[test]
fn shutdown_is_idempotent() {
    let mut pool = ThreadPool::new(2);
    pool.execute();
    pool.shutdown();
    let executed_once = pool.executed.clone();
    pool.shutdown();
    assert_eq!(pool.executed, executed_once);
    assert_eq!(pool.queue.len(), 0);
    for w in &pool.workers {
        assert_eq!(w.status, WorkerStatus::Exited);
    }
}

#[test]
fn submit_after_close_is_rejected_not_dropped() {
    let mut pool = ThreadPool::new(1);
    pool.execute();
    pool.close();
    let before = pool.queue.clone();
    match pool.try_execute() {
        Err(PoolError::PoolClosed) => {}
        _ => panic!("submitting to a closed pool must be refused"),
    }
    // The rejected job was reported, not silently enqueued or dropped.
    assert_eq!(pool.queue, before);
    assert_eq!(pool.next_id, 1);
}

#[test]
fn worker_exits_only_on_closed_empty_channel() {
    let mut pool = ThreadPool::new(1);
    pool.close();
    assert_eq!(pool.worker_step(0), None);
    assert_eq!(pool.workers[0].status, WorkerStatus::Exited);
    assert_eq!(pool.workers[0].id, 1);
}

#[test]
fn scenario_three_jobs_two_workers() {
    // Pool of size 2; jobs A, B and C are submitted in that order.  The
    // recorded outcome must be exactly the three jobs, with no duplicates
    // and no omissions.
    let mut pool = ThreadPool::new(2);
    let a = pool.execute();
    let b = pool.execute();
    let c = pool.execute();
    pool.shutdown();
    let mut recorded = pool.executed.clone();
    recorded.sort();
    assert_eq!(recorded, vec![a, b, c]);
}

#[test]
fn scenario_hundred_increments_single_worker() {
    // Pool of size 1; 100 jobs each bump a counter.  The single worker
    // serializes them, so no increment is lost.
    let mut pool = ThreadPool::new(1);
    for _ in 0..100 {
        pool.execute();
    }
    let mut counter: u64 = 0;
    while pool.queue.len() > 0 {
        if pool.worker_step(0).is_some() {
            counter += 1;
        }
    }
    assert_eq!(counter, 100);
    pool.shutdown();
    assert_eq!(pool.executed.len(), 100);
    let expected: Vec<u64> = (0..100).collect();
    assert_eq!(pool.executed, expected);
}

#[test]
fn scenario_immediate_shutdown_of_idle_pool() {
    // Pool of size 3 with nothing submitted: shutdown returns promptly and
    // every worker has exited.
    let mut pool = ThreadPool::new(3);
    pool.shutdown();
    assert_eq!(pool.executed.len(), 0);
    assert_eq!(pool.queue.len(), 0);
    assert!(!pool.sender_open);
    for w in &pool.workers {
        assert_eq!(w.status, WorkerStatus::Exited);
    }
}
