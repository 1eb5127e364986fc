use thread_pool::{Step, ThreadPool, WorkerState};

#[test]
fn new_pool_has_as_many_live_workers_as_asked_for() {
    for size in [1usize, 2, 4, 17] {
        let pool: ThreadPool<u32> = ThreadPool::new(size);
        assert_eq!(pool.size(), size);
        assert!(pool.is_open());
        for id in 0..size {
            assert_eq!(pool.worker_state(id), WorkerState::Waiting);
        }
        assert_eq!(pool.next_to_join(), Some(0));
    }
}

#[test]
fn submitted_job_goes_to_the_worker_that_asks() {
    let mut pool: ThreadPool<u32> = ThreadPool::new(3);
    pool.execute(42);
    assert_eq!(pool.next_job(2), Step::Run(42));
    assert_eq!(pool.worker_state(0), WorkerState::Waiting);
    assert_eq!(pool.worker_state(1), WorkerState::Waiting);
    assert_eq!(pool.worker_state(2), WorkerState::Running);
    assert_eq!(pool.next_job(0), Step::Wait);
    assert_eq!(pool.next_job(1), Step::Wait);
}

#[test]
fn worker_waits_while_the_pool_is_open_and_idle() {
    let mut pool: ThreadPool<u32> = ThreadPool::new(2);
    assert_eq!(pool.next_job(0), Step::Wait);
    assert_eq!(pool.next_job(0), Step::Wait);
    assert_eq!(pool.worker_state(0), WorkerState::Waiting);
    pool.execute(1);
    assert_eq!(pool.next_job(0), Step::Run(1));
}

#[test]
fn worker_stays_running_until_it_comes_back() {
    let mut pool: ThreadPool<u32> = ThreadPool::new(2);
    pool.execute(1);
    pool.execute(2);
    pool.execute(3);
    assert_eq!(pool.next_job(0), Step::Run(1));
    assert_eq!(pool.next_job(1), Step::Run(2));
    assert_eq!(pool.worker_state(0), WorkerState::Running);
    assert_eq!(pool.worker_state(1), WorkerState::Running);
    assert_eq!(pool.next_job(1), Step::Run(3));
    assert_eq!(pool.worker_state(0), WorkerState::Running);
    assert_eq!(pool.next_job(0), Step::Wait);
    assert_eq!(pool.worker_state(0), WorkerState::Waiting);
    assert_eq!(pool.worker_state(1), WorkerState::Running);
}

#[test]
fn close_tells_idle_workers_to_exit() {
    let mut pool: ThreadPool<u32> = ThreadPool::new(2);
    pool.close();
    assert!(!pool.is_open());
    assert_eq!(pool.size(), 2);
    assert_eq!(pool.worker_state(0), WorkerState::Waiting);
    assert_eq!(pool.next_job(0), Step::Exit);
    assert_eq!(pool.worker_state(0), WorkerState::Stopped);
    assert_eq!(pool.worker_state(1), WorkerState::Waiting);
    assert_eq!(pool.next_job(1), Step::Exit);
    assert_eq!(pool.worker_state(1), WorkerState::Stopped);
}

#[test]
fn stopped_worker_is_only_ever_told_to_exit() {
    let mut pool: ThreadPool<u32> = ThreadPool::new(1);
    pool.close();
    assert_eq!(pool.next_job(0), Step::Exit);
    assert_eq!(pool.next_job(0), Step::Exit);
    assert_eq!(pool.worker_state(0), WorkerState::Stopped);
}

#[test]
fn jobs_queued_before_close_are_still_run() {
    let mut pool: ThreadPool<&'static str> = ThreadPool::new(2);
    pool.execute("a");
    pool.execute("b");
    pool.execute("c");
    pool.close();
    assert_eq!(pool.next_job(0), Step::Run("a"));
    assert_eq!(pool.next_job(1), Step::Run("b"));
    assert_eq!(pool.next_job(1), Step::Run("c"));
    assert_eq!(pool.next_job(0), Step::Exit);
    assert_eq!(pool.worker_state(1), WorkerState::Running);
    assert_eq!(pool.next_job(1), Step::Exit);
    assert_eq!(pool.worker_state(1), WorkerState::Stopped);
}

#[test]
fn close_twice_changes_nothing_more() {
    let mut pool: ThreadPool<u32> = ThreadPool::new(1);
    pool.execute(9);
    pool.close();
    pool.close();
    assert!(!pool.is_open());
    assert_eq!(pool.next_job(0), Step::Run(9));
    assert_eq!(pool.next_job(0), Step::Exit);
}

#[test]
fn thread_of_a_live_worker_cannot_be_joined() {
    let mut pool: ThreadPool<u32> = ThreadPool::new(2);
    assert!(!pool.join(0));
    pool.execute(5);
    assert_eq!(pool.next_job(1), Step::Run(5));
    pool.close();
    assert!(!pool.join(0));
    assert!(!pool.join(1));
    assert_eq!(pool.next_to_join(), Some(0));
    assert_eq!(pool.worker_state(0), WorkerState::Waiting);
    assert_eq!(pool.worker_state(1), WorkerState::Running);
}

#[test]
fn threads_are_joined_in_order_of_identifier() {
    let mut pool: ThreadPool<u32> = ThreadPool::new(3);
    pool.close();
    assert_eq!(pool.next_job(2), Step::Exit);
    assert_eq!(pool.next_job(0), Step::Exit);
    assert_eq!(pool.next_job(1), Step::Exit);
    assert_eq!(pool.next_to_join(), Some(0));
    assert!(pool.join(0));
    assert_eq!(pool.next_to_join(), Some(1));
    assert!(pool.join(1));
    assert_eq!(pool.next_to_join(), Some(2));
    assert!(pool.join(2));
    assert_eq!(pool.next_to_join(), None);
}

#[test]
fn next_to_join_is_the_lowest_identifier_left() {
    let mut pool: ThreadPool<u32> = ThreadPool::new(3);
    pool.close();
    assert_eq!(pool.next_job(1), Step::Exit);
    assert!(pool.join(1));
    assert_eq!(pool.next_to_join(), Some(0));
    assert_eq!(pool.next_job(0), Step::Exit);
    assert!(pool.join(0));
    assert_eq!(pool.next_to_join(), Some(2));
    assert!(pool.join(1));
    assert_eq!(pool.next_to_join(), Some(2));
}

#[test]
fn every_job_is_handed_out_exactly_once_in_order() {
    let mut pool: ThreadPool<u32> = ThreadPool::new(3);
    let mut handed: Vec<u32> = Vec::new();
    let mut submitted: Vec<u32> = Vec::new();
    let mut visitor: usize = 0;
    for round in 0..20u32 {
        for k in 0..(round % 4) {
            let job = round * 10 + k;
            pool.execute(job);
            submitted.push(job);
        }
        for _ in 0..2 {
            if let Step::Run(job) = pool.next_job(visitor) {
                handed.push(job);
            }
            visitor = (visitor + 1) % 3;
        }
    }
    pool.close();
    for id in 0..3 {
        loop {
            match pool.next_job(id) {
                Step::Run(job) => handed.push(job),
                Step::Wait => panic!("a closed pool never tells a worker to wait"),
                Step::Exit => break,
            }
        }
    }
    assert_eq!(submitted.len(), 30);
    assert_eq!(handed, submitted);
    for id in 0..3 {
        assert_eq!(pool.worker_state(id), WorkerState::Stopped);
        assert!(pool.join(id));
    }
    assert_eq!(pool.next_to_join(), None);
}
