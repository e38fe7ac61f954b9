use std::sync::{Arc, Mutex};
use web_server::{Dispatch, PoolError, PoolState, WorkerPool, WorkerStatus};

type Job = Box<dyn FnOnce() + Send>;

fn recording_job(log: &Arc<Mutex<Vec<u32>>>, id: u32) -> Job {
    let log = Arc::clone(log);
    Box::new(move || log.lock().unwrap().push(id))
}

/// Runs one worker step: poll, and run the job if one came. Returns what came.
fn step(pool: &mut WorkerPool<Job>, w: usize) -> &'static str {
    match pool.next_job(w) {
        Dispatch::Run { ticket: _, job } => {
            job();
            pool.job_done(w);
            "run"
        }
        Dispatch::Wait => "wait",
        Dispatch::Exit => "exit",
    }
}

#[test]
fn zero_workers_refused() {
    let r = WorkerPool::<Job>::new(0);
    assert!(matches!(r, Err(PoolError::ZeroSize)));
}

#[test]
fn idle_pool_shuts_down_for_many_sizes() {
    for n in 1..=8usize {
        let mut pool = WorkerPool::<Job>::new(n).unwrap();
        assert_eq!(pool.size(), n);
        assert_eq!(pool.state(), PoolState::Running);
        pool.shutdown();
        assert_eq!(pool.state(), PoolState::ShuttingDown);
        for w in 0..n {
            assert_eq!(step(&mut pool, w), "exit");
            assert_eq!(pool.worker_status(w), WorkerStatus::Terminated);
        }
        assert_eq!(pool.state(), PoolState::Terminated);
        for w in 0..n {
            assert!(pool.claim_join(w));
            assert!(!pool.claim_join(w));
        }
    }
}

#[test]
fn join_refused_while_running() {
    let mut pool = WorkerPool::<Job>::new(2).unwrap();
    assert!(!pool.claim_join(0));
    pool.shutdown();
    assert!(pool.claim_join(0));
}

#[test]
fn shutdown_twice_is_harmless() {
    let mut pool = WorkerPool::<Job>::new(1).unwrap();
    pool.shutdown();
    pool.shutdown();
    assert_eq!(pool.state(), PoolState::ShuttingDown);
    assert_eq!(step(&mut pool, 0), "exit");
    pool.shutdown();
    assert_eq!(pool.state(), PoolState::Terminated);
}

fn run_jobs(m: u32, size: usize) -> Vec<u32> {
    let log = Arc::new(Mutex::new(Vec::new()));
    let mut pool = WorkerPool::<Job>::new(size).unwrap();
    for id in 0..m {
        assert_eq!(pool.execute(recording_job(&log, id)), Ok(id as u64));
    }
    assert_eq!(pool.pending(), m as usize);
    pool.shutdown();
    let mut w = 0usize;
    while pool.state() != PoolState::Terminated {
        if pool.worker_status(w) == WorkerStatus::WaitingForJob {
            step(&mut pool, w);
        }
        w = (w + 1) % size;
    }
    let got = log.lock().unwrap().clone();
    got
}

#[test]
fn every_job_runs_exactly_once() {
    for m in [0u32, 1, 7, 40] {
        for size in [1usize, 3] {
            let mut got = run_jobs(m, size);
            assert_eq!(got.len(), m as usize);
            got.sort();
            assert_eq!(got, (0..m).collect::<Vec<u32>>());
        }
    }
}

#[test]
fn tickets_count_up_from_zero() {
    let mut pool = WorkerPool::<u32>::new(1).unwrap();
    assert_eq!(pool.execute(10), Ok(0));
    assert_eq!(pool.execute(11), Ok(1));
    assert_eq!(pool.submitted(), 2);
    match pool.next_job(0) {
        Dispatch::Run { ticket, job } => {
            assert_eq!(ticket, 0);
            assert_eq!(job, 10);
        }
        _ => panic!("expected a job"),
    }
    assert_eq!(pool.worker_status(0), WorkerStatus::Executing(0));
    pool.job_done(0);
    assert_eq!(pool.worker_status(0), WorkerStatus::WaitingForJob);
    assert_eq!(pool.pending(), 1);
}

#[test]
fn empty_running_pool_says_wait() {
    let mut pool = WorkerPool::<u32>::new(1).unwrap();
    assert!(matches!(pool.next_job(0), Dispatch::Wait));
    assert_eq!(pool.state(), PoolState::Running);
}

#[test]
fn submission_after_shutdown_fails_and_never_runs() {
    let log = Arc::new(Mutex::new(Vec::new()));
    let mut pool = WorkerPool::<Job>::new(2).unwrap();
    pool.shutdown();
    assert_eq!(pool.execute(recording_job(&log, 99)), Err(PoolError::Closed));
    assert_eq!(pool.pending(), 0);
    assert_eq!(pool.submitted(), 0);
    assert_eq!(step(&mut pool, 0), "exit");
    assert_eq!(step(&mut pool, 1), "exit");
    assert_eq!(pool.state(), PoolState::Terminated);
    assert!(log.lock().unwrap().is_empty());
}

#[test]
fn queued_jobs_drain_after_shutdown() {
    let log = Arc::new(Mutex::new(Vec::new()));
    let mut pool = WorkerPool::<Job>::new(1).unwrap();
    pool.execute(recording_job(&log, 1)).unwrap();
    pool.execute(recording_job(&log, 2)).unwrap();
    pool.shutdown();
    assert_eq!(step(&mut pool, 0), "run");
    assert_eq!(step(&mut pool, 0), "run");
    assert_eq!(step(&mut pool, 0), "exit");
    assert_eq!(*log.lock().unwrap(), vec![1, 2]);
}

#[test]
fn busy_worker_leaves_the_other_free() {
    let log = Arc::new(Mutex::new(Vec::new()));
    let mut pool = WorkerPool::<Job>::new(2).unwrap();
    pool.execute(recording_job(&log, 0)).unwrap();
    pool.execute(recording_job(&log, 1)).unwrap();
    pool.execute(recording_job(&log, 2)).unwrap();
    // worker 0 takes the slow job and holds it
    let slow = match pool.next_job(0) {
        Dispatch::Run { ticket, job } => {
            assert_eq!(ticket, 0);
            job
        }
        _ => panic!("expected a job"),
    };
    assert_eq!(step(&mut pool, 1), "run");
    assert_eq!(step(&mut pool, 1), "run");
    assert_eq!(pool.worker_status(0), WorkerStatus::Executing(0));
    assert_eq!(*log.lock().unwrap(), vec![1, 2]);
    slow();
    pool.job_done(0);
    assert_eq!(*log.lock().unwrap(), vec![1, 2, 0]);
}
