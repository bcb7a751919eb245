use worker_pool::channel::{Channel, Recv, SendError};
use worker_pool::pool::{Action, Dispatcher, WorkerState};

fn run_id<T>(a: Action<T>) -> (u64, T) {
    match a {
        Action::Run(id, job) => (id, job),
        Action::Wait => panic!("expected a job, got wait"),
        Action::Exit => panic!("expected a job, got exit"),
    }
}

#[test]
fn new_pool_has_requested_workers() {
    for size in [1u32, 4, 64] {
        let d: Dispatcher<usize> = Dispatcher::new(size);
        assert_eq!(d.size(), size as usize);
        assert!(!d.is_closed());
        assert_eq!(d.submitted(), 0);
        for w in 0..size as usize {
            assert_eq!(d.worker_state(w), WorkerState::Waiting);
        }
    }
}

#[test]
fn submit_assigns_identifiers_in_order() {
    let mut d: Dispatcher<&str> = Dispatcher::new(2);
    assert_eq!(d.submit("a").ok(), Some(0));
    assert_eq!(d.submit("b").ok(), Some(1));
    assert_eq!(d.submit("c").ok(), Some(2));
    assert_eq!(d.submitted(), 3);
    assert_eq!(d.queued(), 3);
}

#[test]
fn jobs_are_accepted_in_submission_order() {
    let mut d: Dispatcher<&str> = Dispatcher::new(3);
    d.submit("j1").ok().unwrap();
    d.submit("j2").ok().unwrap();
    d.submit("j3").ok().unwrap();
    assert_eq!(run_id(d.worker_ready(2)), (0, "j1"));
    assert_eq!(run_id(d.worker_ready(0)), (1, "j2"));
    assert_eq!(run_id(d.worker_ready(1)), (2, "j3"));
    assert_eq!(d.queued(), 0);
}

#[test]
fn each_job_goes_to_one_worker_only() {
    let mut d: Dispatcher<usize> = Dispatcher::new(2);
    d.submit(7).ok().unwrap();
    assert_eq!(run_id(d.worker_ready(0)), (0, 7));
    assert!(matches!(d.worker_ready(1), Action::Wait));
    assert_eq!(d.worker_state(0), WorkerState::Running(0));
    assert_eq!(d.worker_state(1), WorkerState::Waiting);
    assert_eq!(d.job_finished(0), 0);
    assert!(matches!(d.worker_ready(0), Action::Wait));
    assert!(matches!(d.worker_ready(1), Action::Wait));
}

#[test]
fn idle_worker_waits_until_a_job_arrives() {
    let mut d: Dispatcher<usize> = Dispatcher::new(1);
    assert!(matches!(d.worker_ready(0), Action::Wait));
    d.submit(5).ok().unwrap();
    assert_eq!(run_id(d.worker_ready(0)), (0, 5));
}

#[test]
fn shutdown_discards_queued_and_lets_running_finish() {
    let mut d: Dispatcher<usize> = Dispatcher::new(2);
    for i in 0..10usize {
        d.submit(i).ok().unwrap();
    }
    assert_eq!(run_id(d.worker_ready(0)), (0, 0));
    assert_eq!(run_id(d.worker_ready(1)), (1, 1));
    let discarded = d.shutdown();
    assert_eq!(discarded, vec![2, 3, 4, 5, 6, 7, 8, 9]);
    assert!(d.is_closed());
    assert_eq!(d.queued(), 0);
    assert_eq!(d.worker_state(0), WorkerState::Running(0));
    assert_eq!(d.job_finished(0), 0);
    assert!(matches!(d.worker_ready(0), Action::Exit));
    assert!(!d.is_stopped());
    assert_eq!(d.job_finished(1), 1);
    assert!(matches!(d.worker_ready(1), Action::Exit));
    assert!(d.is_stopped());
}

#[test]
fn shutdown_twice_discards_nothing_more() {
    let mut d: Dispatcher<usize> = Dispatcher::new(1);
    d.submit(1).ok().unwrap();
    assert_eq!(d.shutdown(), vec![1]);
    assert!(d.shutdown().is_empty());
}

#[test]
fn submit_after_shutdown_hands_job_back() {
    let mut d: Dispatcher<usize> = Dispatcher::new(1);
    d.shutdown();
    match d.submit(42) {
        Err(SendError(job)) => assert_eq!(job, 42),
        Ok(_) => panic!("a closed pool accepted a job"),
    }
    assert_eq!(d.submitted(), 0);
}

#[test]
fn faulted_job_keeps_worker_serving() {
    let mut d: Dispatcher<usize> = Dispatcher::new(2);
    d.submit(0).ok().unwrap();
    d.submit(1).ok().unwrap();
    assert_eq!(run_id(d.worker_ready(0)), (0, 0));
    // the job faulted; the worker caught it and reports it finished
    assert_eq!(d.job_finished(0), 0);
    assert_eq!(d.worker_state(0), WorkerState::Waiting);
    assert_eq!(run_id(d.worker_ready(0)), (1, 1));
    assert_eq!(d.size(), 2);
}

#[test]
fn two_workers_run_five_jobs_each_once() {
    let mut d: Dispatcher<usize> = Dispatcher::new(2);
    for i in 0..5usize {
        d.submit(i).ok().unwrap();
    }
    let mut log: Vec<usize> = Vec::new();
    let mut running: Vec<Option<usize>> = vec![None, None];
    let mut step = 0usize;
    while log.len() < 5 {
        let w = step % 2;
        step += 1;
        if let Some(job) = running[w].take() {
            log.push(job);
            d.job_finished(w);
        }
        if let Action::Run(_, job) = d.worker_ready(w) {
            running[w] = Some(job);
        }
        let busy = (0..2).filter(|&v| matches!(d.worker_state(v), WorkerState::Running(_))).count();
        assert!(busy <= 2);
    }
    let mut sorted = log.clone();
    sorted.sort();
    assert_eq!(sorted, vec![0, 1, 2, 3, 4]);
}

#[test]
fn channel_delivers_in_order() {
    let mut c: Channel<u32> = Channel::new();
    assert!(c.send(1).is_ok());
    assert!(c.send(2).is_ok());
    assert_eq!(c.len(), 2);
    assert!(matches!(c.try_recv(), Recv::Item(1)));
    assert!(matches!(c.try_recv(), Recv::Item(2)));
    assert!(matches!(c.try_recv(), Recv::Empty));
}

#[test]
fn closed_channel_refuses_and_reports_closure() {
    let mut c: Channel<u32> = Channel::new();
    c.send(3).ok().unwrap();
    c.send(4).ok().unwrap();
    assert_eq!(c.close(), vec![3, 4]);
    assert!(c.is_closed());
    assert_eq!(c.len(), 0);
    assert!(matches!(c.try_recv(), Recv::Closed));
    match c.send(9) {
        Err(SendError(x)) => assert_eq!(x, 9),
        Ok(()) => panic!("a closed channel accepted an item"),
    }
}
