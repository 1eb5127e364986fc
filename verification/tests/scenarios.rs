use std::cell::RefCell;
use std::rc::Rc;
use thread_pool::{Step, ThreadPool, WorkerState};

type Job = Box<dyn FnOnce()>;

fn recording(log: &Rc<RefCell<Vec<&'static str>>>, name: &'static str) -> Job {
    let log = Rc::clone(log);
    Box::new(move || log.borrow_mut().push(name))
}

#[test]
fn single_worker_runs_jobs_in_submission_order() {
    let log = Rc::new(RefCell::new(Vec::new()));
    let mut pool: ThreadPool<Job> = ThreadPool::new(1);
    pool.execute(recording(&log, "A"));
    pool.execute(recording(&log, "B"));

    match pool.next_job(0) {
        Step::Run(job) => {
            assert_eq!(pool.worker_state(0), WorkerState::Running);
            assert!(log.borrow().is_empty());
            job();
        },
        _ => panic!("the worker was not handed the first job"),
    }
    assert_eq!(*log.borrow(), vec!["A"]);
    match pool.next_job(0) {
        Step::Run(job) => job(),
        _ => panic!("the worker was not handed the second job"),
    }
    assert_eq!(*log.borrow(), vec!["A", "B"]);
    assert!(matches!(pool.next_job(0), Step::Wait));
    assert_eq!(pool.worker_state(0), WorkerState::Waiting);
}

#[test]
fn four_workers_run_four_jobs_at_once() {
    let mut pool: ThreadPool<u32> = ThreadPool::new(4);
    for job in 0..4u32 {
        pool.execute(job);
    }
    for id in 0..4usize {
        assert_eq!(pool.next_job(id), Step::Run(id as u32));
    }
    for id in 0..4usize {
        assert_eq!(pool.worker_state(id), WorkerState::Running);
    }
    for id in 0..4usize {
        assert_eq!(pool.next_job(id), Step::Wait);
        assert_eq!(pool.worker_state(id), WorkerState::Waiting);
    }
}

#[test]
fn fifth_job_waits_for_a_free_worker() {
    let mut pool: ThreadPool<u32> = ThreadPool::new(4);
    for job in 0..5u32 {
        pool.execute(job);
    }
    for id in 0..4usize {
        assert_eq!(pool.next_job(id), Step::Run(id as u32));
    }
    assert_eq!(pool.next_job(2), Step::Run(4));
    assert_eq!(pool.next_job(0), Step::Wait);
}

#[test]
fn pool_without_jobs_shuts_down_cleanly() {
    let mut pool: ThreadPool<u32> = ThreadPool::new(2);
    pool.close();
    assert_eq!(pool.next_job(0), Step::Exit);
    assert_eq!(pool.next_job(1), Step::Exit);
    assert_eq!(pool.next_to_join(), Some(0));
    assert!(pool.join(0));
    assert_eq!(pool.next_to_join(), Some(1));
    assert!(pool.join(1));
    assert_eq!(pool.next_to_join(), None);
    assert_eq!(pool.worker_state(0), WorkerState::Stopped);
    assert_eq!(pool.worker_state(1), WorkerState::Stopped);
}

#[test]
fn shutdown_runs_what_was_queued_before_it_ends() {
    let log = Rc::new(RefCell::new(Vec::new()));
    let mut pool: ThreadPool<Job> = ThreadPool::new(2);
    pool.execute(recording(&log, "one"));
    pool.execute(recording(&log, "two"));
    pool.execute(recording(&log, "three"));
    pool.close();
    while let Some(id) = pool.next_to_join() {
        while let Step::Run(job) = pool.next_job(id) {
            job();
        }
        assert!(pool.join(id));
    }
    assert_eq!(*log.borrow(), vec!["one", "two", "three"]);
    assert_eq!(pool.worker_state(0), WorkerState::Stopped);
    assert_eq!(pool.worker_state(1), WorkerState::Stopped);
}
