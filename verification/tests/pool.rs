use hello::Message;
use hello::ThreadPool;
use hello::WorkerStatus;

#[test]
fn new_creates_distinct_workers() {
    let pool = ThreadPool::new(3);
    assert_eq!(pool.workers.len(), 3);
    for (i, w) in pool.workers.iter().enumerate() {
        assert_eq!(w.id, i);
        assert_eq!(w.status, WorkerStatus::Idle);
        assert!(w.completed.is_empty());
    }
    assert!(pool.queue.is_empty());
    assert!(!pool.shutdown_begun);
}

#[test]
fn new_single_worker() {
    let pool = ThreadPool::new(1);
    assert_eq!(pool.workers.len(), 1);
    assert_eq!(pool.workers[0].id, 0);
}

#[test]
fn execute_enqueues_in_fifo_order() {
    let mut pool = ThreadPool::new(2);
    pool.execute(10);
    pool.execute(20);
    pool.execute(30);
    assert_eq!(pool.queue.len(), 3);
    assert_eq!(pool.queue[0], Message::NewJob(10));
    assert_eq!(pool.queue[1], Message::NewJob(20));
    assert_eq!(pool.queue[2], Message::NewJob(30));
    assert_eq!(pool.submitted, vec![10, 20, 30]);
}

#[test]
fn single_worker_runs_jobs_in_submission_order() {
    let mut pool = ThreadPool::new(1);
    pool.execute(1);
    pool.execute(2);
    pool.execute(3);
    for _ in 0..3 {
        let m = pool.claim(0);
        assert!(matches!(m, Message::NewJob(_)));
        pool.finish(0);
    }
    assert_eq!(pool.workers[0].completed, vec![1, 2, 3]);
    assert!(pool.queue.is_empty());
}

#[test]
fn claim_hands_each_message_to_exactly_one_worker() {
    let mut pool = ThreadPool::new(2);
    pool.execute(7);
    let m = pool.claim(0);
    assert_eq!(m, Message::NewJob(7));
    // the message left the queue with the claim: the other worker
    // cannot see it any more
    assert!(pool.queue.is_empty());
    assert_eq!(pool.workers[0].status, WorkerStatus::Busy(7));
    assert_eq!(pool.workers[1].status, WorkerStatus::Idle);
}

#[test]
fn two_jobs_run_concurrently_on_different_workers() {
    let mut pool = ThreadPool::new(2);
    pool.execute(1);
    pool.execute(2);
    pool.claim(0);
    pool.claim(1);
    // both workers hold a job at the same time
    assert_eq!(pool.workers[0].status, WorkerStatus::Busy(1));
    assert_eq!(pool.workers[1].status, WorkerStatus::Busy(2));
}

#[test]
fn completion_order_may_differ_from_submission_order() {
    let mut pool = ThreadPool::new(2);
    // job 1 stands for a slow job, job 2 for a no-op submitted after it
    pool.execute(1);
    pool.execute(2);
    pool.claim(0);
    pool.claim(1);
    // the worker holding the later-submitted job finishes first
    let first_done = pool.finish(1);
    let second_done = pool.finish(0);
    assert_eq!(first_done, 2);
    assert_eq!(second_done, 1);
    assert_eq!(pool.completion_order, vec![2, 1]);
    assert_eq!(pool.submitted, vec![1, 2]);
}

#[test]
fn eight_jobs_on_four_workers_each_run_exactly_once() {
    let mut pool = ThreadPool::new(4);
    for job in 0..8u64 {
        pool.execute(job);
    }
    pool.shutdown();
    let mut total = 0;
    for job in 0..8u64 {
        let runs: usize = pool
            .workers
            .iter()
            .map(|w| w.completed.iter().filter(|&&j| j == job).count())
            .sum();
        assert_eq!(runs, 1);
        total += runs;
    }
    assert_eq!(total, 8);
    for w in &pool.workers {
        assert_eq!(w.status, WorkerStatus::Terminated);
    }
}

#[test]
fn shutdown_sends_one_terminate_per_worker_before_waiting() {
    let mut pool = ThreadPool::new(3);
    pool.execute(5);
    pool.begin_shutdown();
    // all three terminate messages are enqueued behind the job before
    // any worker is waited for
    assert_eq!(pool.queue.len(), 4);
    assert_eq!(pool.queue[0], Message::NewJob(5));
    for i in 1..4 {
        assert_eq!(pool.queue[i], Message::Terminate);
    }
    pool.drain();
    for w in &pool.workers {
        assert_eq!(w.status, WorkerStatus::Terminated);
    }
    assert!(pool.queue.is_empty());
}

#[test]
fn shutdown_of_idle_pool_stops_every_worker() {
    let mut pool = ThreadPool::new(5);
    pool.shutdown();
    for w in &pool.workers {
        assert_eq!(w.status, WorkerStatus::Terminated);
    }
}

#[test]
fn terminate_stops_exactly_one_worker() {
    let mut pool = ThreadPool::new(2);
    pool.begin_shutdown();
    let m = pool.claim(0);
    assert_eq!(m, Message::Terminate);
    assert_eq!(pool.workers[0].status, WorkerStatus::Terminated);
    assert_eq!(pool.workers[1].status, WorkerStatus::Idle);
    let m = pool.claim(1);
    assert_eq!(m, Message::Terminate);
    assert_eq!(pool.workers[1].status, WorkerStatus::Terminated);
    assert!(pool.queue.is_empty());
}

#[test]
fn crashed_worker_leaves_later_jobs_waiting() {
    // known limitation, preserved from the design: a job fault takes
    // its worker down, and a pool of one worker then has nobody left to
    // claim anything submitted afterwards
    let mut pool = ThreadPool::new(1);
    pool.execute(10);
    pool.claim(0);
    let lost = pool.crash(0);
    assert_eq!(lost, 10);
    assert_eq!(pool.workers[0].status, WorkerStatus::Crashed(10));
    pool.execute(11);
    assert_eq!(pool.find_live(), None);
    assert_eq!(pool.queue.len(), 1);
    assert_eq!(pool.queue[0], Message::NewJob(11));
    assert!(pool.workers[0].completed.is_empty());
}

#[test]
fn crash_does_not_stop_other_workers() {
    let mut pool = ThreadPool::new(2);
    pool.execute(1);
    pool.execute(2);
    pool.claim(0);
    pool.claim(1);
    pool.crash(0);
    pool.finish(1);
    pool.begin_shutdown();
    pool.drain();
    assert_eq!(pool.workers[0].status, WorkerStatus::Crashed(1));
    assert_eq!(pool.workers[1].status, WorkerStatus::Terminated);
    assert_eq!(pool.workers[1].completed, vec![2]);
}
