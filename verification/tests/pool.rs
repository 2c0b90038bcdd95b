use rust_server::{PoolError, PoolState, Step, ThreadPool, Worker, WorkerStatus};
use std::cell::Cell;
use std::rc::Rc;

fn statuses<J>(pool: &ThreadPool<J>) -> Vec<WorkerStatus> {
    let mut all = Vec::new();
    for id in 0..pool.size() {
        all.push(pool.worker(id).unwrap().status);
    }
    all
}

#[test]
fn new_pool_has_idle_workers_with_ids_in_creation_order() {
    let pool: ThreadPool<u32> = ThreadPool::new(4);
    assert_eq!(pool.size(), 4);
    for id in 0..4 {
        assert_eq!(pool.worker(id), Some(Worker { id, status: WorkerStatus::Idle }));
    }
    assert_eq!(pool.worker(4), None);
    assert_eq!(pool.state(), PoolState::Accepting);
    assert_eq!(pool.pending(), 0);
    assert_eq!(pool.next_join(), None);
}

#[test]
fn pool_without_workers_is_never_made() {
    assert!(ThreadPool::<u32>::try_new(0).is_none());
    let pool = ThreadPool::<u32>::try_new(1).unwrap();
    assert_eq!(pool.size(), 1);
    assert_eq!(pool.worker(0), Some(Worker { id: 0, status: WorkerStatus::Idle }));
    let pool = ThreadPool::<u32>::try_new(7).unwrap();
    assert_eq!(pool.size(), 7);
    assert_eq!(pool.state(), PoolState::Accepting);
}

#[test]
fn worker_ids_are_unique_for_every_size() {
    for size in 1..40 {
        let pool: ThreadPool<u8> = ThreadPool::new(size);
        assert_eq!(pool.size(), size);
        let mut seen = vec![false; size];
        for place in 0..size {
            let id = pool.worker(place).unwrap().id;
            assert!(id < size);
            assert!(!seen[id]);
            seen[id] = true;
        }
        assert_eq!(pool.worker(size), None);
    }
}

#[test]
fn pool_of_one_worker_runs_jobs_one_after_another() {
    let mut pool: ThreadPool<char> = ThreadPool::new(1);
    assert_eq!(pool.execute('a'), Ok(()));
    assert_eq!(pool.execute('b'), Ok(()));
    assert_eq!(pool.receive(0), Ok(Step::Run('a')));
    assert_eq!(pool.pending(), 1);
    assert_eq!(pool.receive(0), Err(PoolError::NotIdle));
    assert_eq!(pool.pending(), 1);
    assert_eq!(pool.finished(0), Ok(()));
    assert_eq!(pool.receive(0), Ok(Step::Run('b')));
    assert_eq!(pool.finished(0), Ok(()));
    assert_eq!(pool.receive(0), Ok(Step::Wait));
}

#[test]
fn jobs_are_handed_out_in_submission_order() {
    let mut pool: ThreadPool<u32> = ThreadPool::new(2);
    assert_eq!(pool.execute(10), Ok(()));
    assert_eq!(pool.execute(20), Ok(()));
    assert_eq!(pool.execute(30), Ok(()));
    assert_eq!(pool.pending(), 3);
    assert_eq!(pool.receive(1), Ok(Step::Run(10)));
    assert_eq!(pool.receive(0), Ok(Step::Run(20)));
    assert_eq!(pool.pending(), 1);
    assert_eq!(pool.finished(0), Ok(()));
    assert_eq!(pool.receive(0), Ok(Step::Run(30)));
    assert_eq!(pool.pending(), 0);
}

#[test]
fn idle_worker_waits_while_nothing_is_pending() {
    let mut pool: ThreadPool<u32> = ThreadPool::new(2);
    assert_eq!(pool.receive(0), Ok(Step::Wait));
    assert_eq!(pool.receive(0), Ok(Step::Wait));
    assert_eq!(pool.receive(1), Ok(Step::Wait));
    assert_eq!(statuses(&pool), vec![WorkerStatus::Idle, WorkerStatus::Idle]);
    assert_eq!(pool.state(), PoolState::Accepting);
    assert_eq!(pool.execute(5), Ok(()));
    assert_eq!(pool.receive(1), Ok(Step::Run(5)));
    assert_eq!(statuses(&pool), vec![WorkerStatus::Idle, WorkerStatus::Busy]);
}

#[test]
fn every_job_is_handed_out_exactly_once() {
    for size in 1..6 {
        for count in 0..30u32 {
            let mut pool: ThreadPool<u32> = ThreadPool::new(size);
            for job in 0..count {
                assert_eq!(pool.execute(job), Ok(()));
            }
            assert_eq!(pool.shutdown(), true);
            let mut times_run = vec![0u32; count as usize];
            let mut order = Vec::new();
            let mut exited = 0;
            while exited < size {
                for id in 0..size {
                    match pool.receive(id) {
                        Ok(Step::Run(job)) => {
                            times_run[job as usize] += 1;
                            order.push(job);
                            assert_eq!(pool.finished(id), Ok(()));
                        }
                        Ok(Step::Exit) => exited += 1,
                        Ok(Step::Wait) => panic!("a closed queue never makes a worker wait"),
                        Err(PoolError::NotIdle) => {}
                        Err(error) => panic!("unexpected refusal: {:?}", error),
                    }
                }
            }
            assert!(times_run.iter().all(|&times| times == 1));
            let submitted: Vec<u32> = (0..count).collect();
            assert_eq!(order, submitted);
        }
    }
}

#[test]
fn closures_submitted_as_jobs_each_run_once() {
    let mut pool: ThreadPool<Box<dyn FnOnce()>> = ThreadPool::new(3);
    let counters: Vec<Rc<Cell<u32>>> = (0..10).map(|_| Rc::new(Cell::new(0))).collect();
    for counter in &counters {
        let counter = Rc::clone(counter);
        assert!(pool.execute(Box::new(move || counter.set(counter.get() + 1))).is_ok());
    }
    pool.shutdown();
    let mut exited = 0;
    while exited < 3 {
        for id in 0..3 {
            match pool.receive(id) {
                Ok(Step::Run(job)) => {
                    job();
                    assert_eq!(pool.finished(id), Ok(()));
                }
                Ok(Step::Exit) => exited += 1,
                Ok(Step::Wait) => panic!("a closed queue never makes a worker wait"),
                Err(PoolError::NotIdle) => {}
                Err(error) => panic!("unexpected refusal: {:?}", error),
            }
        }
    }
    for counter in &counters {
        assert_eq!(counter.get(), 1);
    }
}

#[test]
fn teardown_drains_every_queued_job_before_the_pool_terminates() {
    let mut pool: ThreadPool<u32> = ThreadPool::new(2);
    for job in 0..7 {
        assert_eq!(pool.execute(job), Ok(()));
    }
    assert_eq!(pool.shutdown(), true);
    assert_eq!(pool.state(), PoolState::Draining);
    assert_eq!(pool.pending(), 7);
    assert_eq!(pool.next_join(), Some(0));
    // The first worker cannot be recorded as joined before it has left its loop.
    assert_eq!(pool.worker_joined(false), Err(PoolError::StillRunning));

    let mut done = Vec::new();
    let mut turn = 0;
    while pool.pending() > 0 {
        match pool.receive(turn % 2) {
            Ok(Step::Run(job)) => {
                assert_eq!(pool.finished(turn % 2), Ok(()));
                done.push(job);
            }
            other => panic!("expected a job, got {:?}", other),
        }
        turn += 1;
    }
    assert_eq!(done, vec![0, 1, 2, 3, 4, 5, 6]);
    assert_eq!(pool.state(), PoolState::Draining);

    assert_eq!(pool.receive(0), Ok(Step::Exit));
    assert_eq!(pool.receive(1), Ok(Step::Exit));
    assert_eq!(statuses(&pool), vec![WorkerStatus::Exited, WorkerStatus::Exited]);
    assert_eq!(pool.worker_joined(false), Ok(0));
    assert_eq!(pool.state(), PoolState::Draining);
    assert_eq!(pool.next_join(), Some(1));
    assert_eq!(pool.worker_joined(false), Ok(1));
    assert_eq!(pool.state(), PoolState::Terminated);
    assert_eq!(pool.next_join(), None);
    assert_eq!(pool.pending(), 0);
    assert_eq!(statuses(&pool), vec![WorkerStatus::Joined, WorkerStatus::Joined]);
}

#[test]
fn worker_does_not_exit_while_jobs_are_pending() {
    let mut pool: ThreadPool<u32> = ThreadPool::new(1);
    assert_eq!(pool.execute(1), Ok(()));
    assert_eq!(pool.shutdown(), true);
    assert_eq!(pool.receive(0), Ok(Step::Run(1)));
    assert_eq!(pool.finished(0), Ok(()));
    assert_eq!(pool.receive(0), Ok(Step::Exit));
    assert_eq!(pool.receive(0), Err(PoolError::NotIdle));
}

#[test]
fn job_submitted_after_teardown_began_is_rejected_and_never_runs() {
    let mut pool: ThreadPool<u32> = ThreadPool::new(2);
    assert_eq!(pool.execute(1), Ok(()));
    assert_eq!(pool.shutdown(), true);
    assert_eq!(pool.execute(2), Err(PoolError::ShutDown));
    assert_eq!(pool.execute(3), Err(PoolError::ShutDown));
    assert_eq!(pool.pending(), 1);
    assert_eq!(pool.receive(0), Ok(Step::Run(1)));
    assert_eq!(pool.receive(1), Ok(Step::Exit));
    assert_eq!(pool.finished(0), Ok(()));
    assert_eq!(pool.receive(0), Ok(Step::Exit));
    assert_eq!(pool.worker_joined(false), Ok(0));
    assert_eq!(pool.worker_joined(false), Ok(1));
    assert_eq!(pool.state(), PoolState::Terminated);
    assert_eq!(pool.execute(4), Err(PoolError::ShutDown));
    assert_eq!(pool.pending(), 0);
    assert_eq!(pool.state(), PoolState::Terminated);
}

#[test]
fn shutdown_happens_once() {
    let mut pool: ThreadPool<u32> = ThreadPool::new(3);
    assert_eq!(pool.execute(8), Ok(()));
    assert_eq!(pool.shutdown(), true);
    assert_eq!(pool.shutdown(), false);
    assert_eq!(pool.shutdown(), false);
    assert_eq!(pool.state(), PoolState::Draining);
    assert_eq!(pool.pending(), 1);
    assert_eq!(pool.next_join(), Some(0));
}

#[test]
fn as_many_jobs_run_side_by_side_as_there_are_workers() {
    let mut pool: ThreadPool<u32> = ThreadPool::new(3);
    for job in 0..4 {
        assert_eq!(pool.execute(job), Ok(()));
    }
    assert_eq!(pool.receive(0), Ok(Step::Run(0)));
    assert_eq!(pool.receive(1), Ok(Step::Run(1)));
    assert_eq!(pool.receive(2), Ok(Step::Run(2)));
    assert_eq!(
        statuses(&pool),
        vec![WorkerStatus::Busy, WorkerStatus::Busy, WorkerStatus::Busy]
    );
    // The fourth job stays queued while all three workers are busy.
    assert_eq!(pool.pending(), 1);
    for id in 0..3 {
        assert_eq!(pool.receive(id), Err(PoolError::NotIdle));
    }
    assert_eq!(pool.pending(), 1);
    // It starts as soon as one of them is done.
    assert_eq!(pool.finished(1), Ok(()));
    assert_eq!(pool.receive(1), Ok(Step::Run(3)));
    assert_eq!(pool.pending(), 0);
}

#[test]
fn one_slow_job_does_not_hold_back_three_quick_ones() {
    let mut pool: ThreadPool<&str> = ThreadPool::new(4);
    assert_eq!(pool.execute("slow"), Ok(()));
    assert_eq!(pool.execute("quick 1"), Ok(()));
    assert_eq!(pool.execute("quick 2"), Ok(()));
    assert_eq!(pool.execute("quick 3"), Ok(()));
    assert_eq!(pool.receive(0), Ok(Step::Run("slow")));
    assert_eq!(pool.receive(1), Ok(Step::Run("quick 1")));
    assert_eq!(pool.receive(2), Ok(Step::Run("quick 2")));
    assert_eq!(pool.receive(3), Ok(Step::Run("quick 3")));
    // All four run at the same time; nothing waits behind the slow job.
    assert_eq!(pool.pending(), 0);
    assert_eq!(statuses(&pool), vec![WorkerStatus::Busy; 4]);
    assert_eq!(pool.finished(1), Ok(()));
    assert_eq!(pool.finished(2), Ok(()));
    assert_eq!(pool.finished(3), Ok(()));
    assert_eq!(
        statuses(&pool),
        vec![WorkerStatus::Busy, WorkerStatus::Idle, WorkerStatus::Idle, WorkerStatus::Idle]
    );
    assert_eq!(pool.finished(0), Ok(()));
    assert_eq!(statuses(&pool), vec![WorkerStatus::Idle; 4]);
}

#[test]
fn panic_of_one_worker_leaves_the_others_working() {
    let mut pool: ThreadPool<&str> = ThreadPool::new(3);
    assert_eq!(pool.execute("before"), Ok(()));
    assert_eq!(pool.execute("panics"), Ok(()));
    assert_eq!(pool.execute("after 1"), Ok(()));
    assert_eq!(pool.execute("after 2"), Ok(()));

    assert_eq!(pool.receive(0), Ok(Step::Run("before")));
    assert_eq!(pool.receive(1), Ok(Step::Run("panics")));
    // Worker 1 panics in its job and is never heard of again.
    assert_eq!(pool.finished(0), Ok(()));
    assert_eq!(pool.receive(0), Ok(Step::Run("after 1")));
    assert_eq!(pool.receive(2), Ok(Step::Run("after 2")));
    assert_eq!(pool.finished(0), Ok(()));
    assert_eq!(pool.finished(2), Ok(()));
    assert_eq!(pool.execute("after 3"), Ok(()));
    assert_eq!(pool.receive(2), Ok(Step::Run("after 3")));
    assert_eq!(pool.finished(2), Ok(()));
    assert_eq!(pool.pending(), 0);

    assert_eq!(pool.shutdown(), true);
    assert_eq!(pool.receive(0), Ok(Step::Exit));
    assert_eq!(pool.receive(2), Ok(Step::Exit));
    assert_eq!(pool.worker_joined(false), Ok(0));
    // The thread of worker 1 did not end normally.
    assert_eq!(pool.worker_joined(false), Err(PoolError::StillRunning));
    assert_eq!(pool.next_join(), Some(1));
    assert_eq!(pool.worker_joined(true), Ok(1));
    // Teardown goes on to the worker behind the one that panicked.
    assert_eq!(pool.state(), PoolState::Draining);
    assert_eq!(pool.next_join(), Some(2));
    assert_eq!(pool.worker_joined(false), Ok(2));
    assert_eq!(pool.state(), PoolState::Terminated);
    assert_eq!(
        statuses(&pool),
        vec![WorkerStatus::Joined, WorkerStatus::Panicked, WorkerStatus::Joined]
    );
}

#[test]
fn worker_that_panicked_while_idle_is_recorded_as_panicked() {
    let mut pool: ThreadPool<u8> = ThreadPool::new(2);
    assert_eq!(pool.shutdown(), true);
    assert_eq!(pool.worker_joined(true), Ok(0));
    assert_eq!(pool.receive(1), Ok(Step::Exit));
    assert_eq!(pool.worker_joined(true), Ok(1));
    assert_eq!(statuses(&pool), vec![WorkerStatus::Panicked, WorkerStatus::Panicked]);
    assert_eq!(pool.state(), PoolState::Terminated);
}

#[test]
fn workers_are_joined_in_creation_order() {
    let mut pool: ThreadPool<u8> = ThreadPool::new(4);
    assert_eq!(pool.next_join(), None);
    assert_eq!(pool.shutdown(), true);
    // Workers leave in some other order; teardown still waits for them in order.
    for id in [3, 1, 0, 2] {
        assert_eq!(pool.receive(id), Ok(Step::Exit));
    }
    for id in 0..4 {
        assert_eq!(pool.next_join(), Some(id));
        assert_eq!(pool.state(), PoolState::Draining);
        assert_eq!(pool.worker_joined(false), Ok(id));
        assert_eq!(pool.worker(id), Some(Worker { id, status: WorkerStatus::Joined }));
    }
    assert_eq!(pool.next_join(), None);
    assert_eq!(pool.state(), PoolState::Terminated);
}

#[test]
fn joining_is_refused_outside_teardown() {
    let mut pool: ThreadPool<u8> = ThreadPool::new(1);
    assert_eq!(pool.worker_joined(false), Err(PoolError::NotDraining));
    assert_eq!(pool.worker_joined(true), Err(PoolError::NotDraining));
    assert_eq!(pool.worker(0), Some(Worker { id: 0, status: WorkerStatus::Idle }));
    assert_eq!(pool.state(), PoolState::Accepting);
    assert_eq!(pool.shutdown(), true);
    assert_eq!(pool.receive(0), Ok(Step::Exit));
    assert_eq!(pool.worker_joined(false), Ok(0));
    assert_eq!(pool.worker_joined(false), Err(PoolError::NotDraining));
    assert_eq!(pool.worker_joined(true), Err(PoolError::NotDraining));
    assert_eq!(pool.worker(0), Some(Worker { id: 0, status: WorkerStatus::Joined }));
}

#[test]
fn events_of_unknown_workers_are_refused() {
    let mut pool: ThreadPool<u8> = ThreadPool::new(2);
    assert_eq!(pool.execute(1), Ok(()));
    assert_eq!(pool.receive(2), Err(PoolError::UnknownWorker));
    assert_eq!(pool.receive(usize::MAX), Err(PoolError::UnknownWorker));
    assert_eq!(pool.finished(2), Err(PoolError::UnknownWorker));
    assert_eq!(pool.pending(), 1);
    assert_eq!(statuses(&pool), vec![WorkerStatus::Idle, WorkerStatus::Idle]);
}

#[test]
fn only_a_busy_worker_can_report_a_finished_job() {
    let mut pool: ThreadPool<u8> = ThreadPool::new(2);
    assert_eq!(pool.finished(0), Err(PoolError::NotBusy));
    assert_eq!(pool.execute(1), Ok(()));
    assert_eq!(pool.receive(0), Ok(Step::Run(1)));
    assert_eq!(pool.finished(1), Err(PoolError::NotBusy));
    assert_eq!(pool.finished(0), Ok(()));
    assert_eq!(pool.finished(0), Err(PoolError::NotBusy));
    assert_eq!(pool.shutdown(), true);
    assert_eq!(pool.receive(0), Ok(Step::Exit));
    assert_eq!(pool.finished(0), Err(PoolError::NotBusy));
    assert_eq!(pool.worker_joined(false), Ok(0));
    assert_eq!(pool.finished(0), Err(PoolError::NotBusy));
    assert_eq!(pool.receive(0), Err(PoolError::NotIdle));
}

#[test]
fn busy_worker_joined_after_a_panic_takes_no_further_job() {
    let mut pool: ThreadPool<u8> = ThreadPool::new(2);
    assert_eq!(pool.execute(1), Ok(()));
    assert_eq!(pool.execute(2), Ok(()));
    assert_eq!(pool.receive(0), Ok(Step::Run(1)));
    assert_eq!(pool.shutdown(), true);
    assert_eq!(pool.worker_joined(true), Ok(0));
    assert_eq!(pool.receive(0), Err(PoolError::NotIdle));
    assert_eq!(pool.finished(0), Err(PoolError::NotBusy));
    // The job behind the abandoned one still goes to the other worker.
    assert_eq!(pool.receive(1), Ok(Step::Run(2)));
    assert_eq!(pool.finished(1), Ok(()));
    assert_eq!(pool.receive(1), Ok(Step::Exit));
    assert_eq!(pool.worker_joined(false), Ok(1));
    assert_eq!(pool.state(), PoolState::Terminated);
}

/// A small deterministic generator, so that the interleavings below are the
/// same on every run.
fn next_random(state: &mut u64) -> u64 {
    *state = state.wrapping_mul(6364136223846793005).wrapping_add(1442695040888963407);
    *state >> 33
}

#[test]
fn any_interleaving_hands_every_job_out_once_and_drains_on_teardown() {
    for seed in 0..200u64 {
        let mut random = seed;
        let size = 1 + (next_random(&mut random) % 5) as usize;
        let mut pool: ThreadPool<u32> = ThreadPool::new(size);
        let mut busy = vec![false; size];
        let mut exited = vec![false; size];
        let mut accepted = 0u32;
        let mut handed_out = Vec::new();
        let mut finished = 0u32;

        for _ in 0..300 {
            let id = (next_random(&mut random) % size as u64) as usize;
            match next_random(&mut random) % 8 {
                0 | 1 | 2 => {
                    let result = pool.execute(accepted);
                    if pool.state() == PoolState::Accepting {
                        assert_eq!(result, Ok(()));
                        accepted += 1;
                    } else {
                        assert_eq!(result, Err(PoolError::ShutDown));
                    }
                }
                3 | 4 => match pool.receive(id) {
                    Ok(Step::Run(job)) => {
                        assert!(!busy[id] && !exited[id]);
                        busy[id] = true;
                        handed_out.push(job);
                    }
                    Ok(Step::Wait) => {
                        assert!(!busy[id] && !exited[id]);
                        assert_eq!(pool.state(), PoolState::Accepting);
                        assert_eq!(pool.pending(), 0);
                    }
                    Ok(Step::Exit) => {
                        assert!(!busy[id] && !exited[id]);
                        assert_eq!(pool.pending(), 0);
                        exited[id] = true;
                    }
                    Err(error) => {
                        assert_eq!(error, PoolError::NotIdle);
                        assert!(busy[id] || exited[id]);
                    }
                },
                5 | 6 => {
                    let result = pool.finished(id);
                    if busy[id] {
                        assert_eq!(result, Ok(()));
                        busy[id] = false;
                        finished += 1;
                    } else {
                        assert_eq!(result, Err(PoolError::NotBusy));
                    }
                }
                _ => {
                    if next_random(&mut random) % 16 == 0 {
                        pool.shutdown();
                    }
                }
            }
            assert_eq!(handed_out.len() + pool.pending(), accepted as usize);
        }

        // Teardown: every worker goes on until it is told to exit.
        pool.shutdown();
        assert_eq!(pool.execute(u32::MAX), Err(PoolError::ShutDown));
        for id in 0..size {
            while !exited[id] {
                if busy[id] {
                    assert_eq!(pool.finished(id), Ok(()));
                    busy[id] = false;
                    finished += 1;
                }
                match pool.receive(id) {
                    Ok(Step::Run(job)) => {
                        busy[id] = true;
                        handed_out.push(job);
                    }
                    Ok(Step::Exit) => exited[id] = true,
                    other => panic!("unexpected answer during teardown: {:?}", other),
                }
            }
        }
        for id in 0..size {
            assert_eq!(pool.next_join(), Some(id));
            assert_eq!(pool.worker_joined(false), Ok(id));
        }
        assert_eq!(pool.state(), PoolState::Terminated);
        assert_eq!(pool.pending(), 0);
        let submitted: Vec<u32> = (0..accepted).collect();
        assert_eq!(handed_out, submitted);
        assert_eq!(finished, accepted);
    }
}
