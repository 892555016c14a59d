use px_core::boundary::Boundary;
use px_core::meta::{has_random_marks, Job};
use px_core::noop;
use px_core::pool::{Pool, StashPolicy};
use px_core::signal::{IoKind, JobErr, NetState, SignalControl, BACKOFF_NS};
use px_core::worker::{TaskOutcome, Worker};

const JOB_CNT: usize = 100;
const POOLSIZE: usize = 16_384;
const SEC: u64 = 1_000_000_000;

type NoOpPool = Pool<noop::Response, noop::State>;

fn nanos(secs: f32) -> u64 {
    std::time::Duration::from_secs_f32(secs).as_nanos() as u64
}

fn empty_pool(timeout: f32) -> NoOpPool {
    Pool::new(Worker::new(Boundary::Limited(POOLSIZE), nanos(timeout)))
}

fn get_pool(timeout: f32, fire_in: f32, max_retries: u32) -> NoOpPool {
    let mut pool = empty_pool(timeout);
    for _ in 0..JOB_CNT {
        pool.insert(noop::State, nanos(timeout), nanos(fire_in), max_retries, 0).unwrap();
    }
    pool
}

fn run_noop(pool: &mut NoOpPool, launched: Vec<Job<noop::State>>) {
    for mut job in launched {
        let signal = noop::Worker::exec(&mut job.state);
        assert!(pool.complete(job, TaskOutcome::Finished(signal)).is_ok());
    }
}

fn run_with(
    pool: &mut NoOpPool,
    launched: Vec<Job<noop::State>>,
    outcome: fn(&Job<noop::State>) -> TaskOutcome<noop::Response>,
) {
    for job in launched {
        let ended = outcome(&job);
        assert!(pool.complete(job, ended).is_ok());
    }
}

#[test]
fn single_in_single_out() {
    let mut buf = Vec::new();
    let mut pool = empty_pool(100.0);

    pool.insert(noop::State, 100 * SEC, 0, 3, 0).unwrap();

    assert_eq!(buf.len(), 0);
    pool.release_ready(0, &mut buf);
    assert_eq!(buf.len(), 1);

    let launched = pool.spawn(&mut buf);
    assert_eq!(launched.len(), 1);
    run_noop(&mut pool, launched);

    let report = pool.tick(5 * SEC, &mut buf);

    assert_eq!(report.results.len(), 1);
    assert_eq!(
        report.results[0],
        (SignalControl::Success(NetState::Closed, noop::Response), noop::State)
    );
    assert_eq!(report.dropped, 0);
    assert_eq!(pool.job_count(), 1);
}

#[test]
fn all_in_all_out() {
    let mut buf = Vec::new();
    let mut pool = get_pool(100.0, 0.0, 3);
    pool.release_ready(0, &mut buf);

    assert_eq!(buf.len(), JOB_CNT);

    let launched = pool.spawn(&mut buf);
    run_noop(&mut pool, launched);

    let report = pool.tick(5 * SEC, &mut buf);

    assert_eq!(JOB_CNT, report.results.len());
    assert_eq!(pool.waiting(), 0);
    assert_eq!(pool.stashed(), 0);
    assert_eq!(buf.len(), 0);
}

// Run all once, retry, run again, succeed, all in; all out
#[test]
fn all_retry_now_once() {
    fn retry_twice(job: &Job<noop::State>) -> TaskOutcome<noop::Response> {
        match job.meta.attempt {
            0 | 1 => {
                println!("on iter: {}", job.meta.attempt);
                TaskOutcome::Finished(SignalControl::Retry)
            }
            _ => {
                println!("on iter: {} [DONE]", job.meta.attempt);
                TaskOutcome::Finished(SignalControl::Success(NetState::Closed, noop::Response))
            }
        }
    }

    let mut buf = Vec::new();
    let mut pool = get_pool(100.0, 0.0, 3);

    // FIRST ITER
    assert_eq!(pool.waiting(), JOB_CNT);
    pool.release_ready(0, &mut buf);
    assert_eq!(pool.waiting(), 0);
    assert_eq!(buf.len(), JOB_CNT);

    // Fire and retrieve once
    let launched = pool.spawn(&mut buf);
    assert_eq!(buf.len(), 0);
    run_with(&mut pool, launched, retry_twice);

    // capture all the results
    let report = pool.tick(5 * SEC, &mut buf);
    assert_eq!(report.results.len(), 0);

    // SECOND ITER: every job is queued again, with one attempt used up
    assert_eq!(pool.waiting(), 0);
    assert_eq!(buf.len(), JOB_CNT);
    assert!(buf.iter().all(|job| job.meta.attempt == 1));
    assert_eq!(report.launched.len(), 0);

    let launched = pool.spawn(&mut buf);
    assert_eq!(buf.len(), 0);
    run_with(&mut pool, launched, retry_twice);

    let report = pool.tick(7 * SEC, &mut buf);
    assert_eq!(report.results.len(), 0);

    // THIRD ITER
    assert_eq!(pool.waiting(), 0);
    assert_eq!(buf.len(), JOB_CNT);
    assert!(buf.iter().all(|job| job.meta.attempt == 2));

    let launched = pool.spawn(&mut buf);
    assert_eq!(buf.len(), 0);
    run_with(&mut pool, launched, retry_twice);

    let report = pool.tick(9 * SEC, &mut buf);

    assert_eq!(report.results.len(), JOB_CNT);
    assert!(report
        .results
        .iter()
        .all(|(signal, _)| matches!(signal, SignalControl::Success(_, _))));
    assert_eq!(buf.len(), 0);
}

// assert all tasks do eventually timeout
#[test]
fn all_timeout() {
    // the job sleeps three seconds, and may run one
    fn sleeps_three_seconds(job: &Job<noop::State>) -> TaskOutcome<noop::Response> {
        if 3 * SEC > job.meta.ttl {
            TaskOutcome::TimedOut
        } else {
            TaskOutcome::Finished(SignalControl::Success(NetState::Closed, noop::Response))
        }
    }

    let mut buf = Vec::new();
    let live_for = SEC;
    let mut pool: NoOpPool = Pool::new(Worker::new(Boundary::Limited(POOLSIZE), live_for));

    for _ in 0..JOB_CNT {
        pool.insert(noop::State, live_for, 0, 1, 0).unwrap();
    }

    assert_eq!(pool.waiting(), JOB_CNT);
    pool.release_ready(0, &mut buf);
    assert_eq!(pool.waiting(), 0);
    assert_eq!(buf.len(), JOB_CNT);

    // Fire and retrieve once
    let launched = pool.spawn(&mut buf);
    assert_eq!(buf.len(), 0);
    run_with(&mut pool, launched, sleeps_three_seconds);

    // capture all the results
    let report = pool.tick(5 * SEC, &mut buf);

    assert_eq!(report.results.len(), JOB_CNT);
    for (signal, _) in report.results.iter() {
        println!("{:?}", signal);
        assert_eq!(*signal, SignalControl::Error(JobErr::IO(IoKind::TimedOut)));
    }
    assert_eq!(pool.waiting(), 0);
    assert_eq!(pool.stashed(), 0);
    assert_eq!(buf.len(), 0);
    assert_eq!(pool.job_count(), 1);
}

// a tick on a pool with nothing to do comes back at once
#[test]
fn does_not_block() {
    let mut pool = empty_pool(100.0);
    let mut buf = Vec::new();

    let started = std::time::Instant::now();
    let report = pool.tick(0, &mut buf);

    assert!(started.elapsed() < std::time::Duration::from_secs(10));
    assert_eq!(report.results.len(), 0);
    assert_eq!(report.launched.len(), 0);
    assert_eq!(report.dropped, 0);
}

#[test]
fn inserted_ids_are_random_and_differ() {
    let mut pool = empty_pool(1.0);
    let a = pool.insert(noop::State, SEC, 0, 3, 0).unwrap();
    let b = pool.insert(noop::State, SEC, 0, 3, 0).unwrap();
    assert_ne!(a, b);
    assert!(has_random_marks(a));
    assert!(has_random_marks(b));
    assert_eq!((a >> 76) & 0xf, 4);
    assert_eq!((a >> 62) & 0x3, 2);
    assert!(!has_random_marks(0));
    assert_eq!(pool.waiting(), 2);
}

#[test]
fn insert_rejects_an_identifier_that_waits() {
    let mut pool = empty_pool(1.0);
    assert_eq!(pool.insert_with_id(7, noop::State, SEC, 0, 3, 0), Ok(()));
    assert_eq!(pool.insert_with_id(7, noop::State, SEC, 0, 3, 0), Err(noop::State));
    assert_eq!(pool.waiting(), 1);
    assert_eq!(pool.insert_with_id(8, noop::State, SEC, 0, 3, 0), Ok(()));
    assert_eq!(pool.waiting(), 2);
}

#[test]
fn jobs_are_released_in_the_order_of_their_due_times() {
    let mut pool: Pool<noop::Response, u8> = Pool::new(Worker::new(Boundary::Unlimited, SEC));
    pool.insert_with_id(1, 10, SEC, 3 * SEC, 3, 0).unwrap();
    pool.insert_with_id(2, 20, SEC, 1 * SEC, 3, 0).unwrap();
    pool.insert_with_id(3, 30, SEC, 2 * SEC, 3, 0).unwrap();
    pool.insert_with_id(4, 40, SEC, 1 * SEC, 3, 0).unwrap();

    let mut buf = Vec::new();
    pool.release_ready(SEC / 2, &mut buf);
    assert_eq!(buf.len(), 0);

    pool.release_ready(2 * SEC, &mut buf);
    let states: Vec<u8> = buf.iter().map(|job| job.state).collect();
    assert_eq!(states, vec![20, 40, 30]);
    assert_eq!(pool.waiting(), 1);

    // the clock does not run backwards: an earlier reading counts as the latest seen
    assert_eq!(pool.clock(), 2 * SEC);
    pool.release_ready(0, &mut buf);
    assert_eq!(pool.clock(), 2 * SEC);
    assert_eq!(buf.len(), 3);

    pool.release_ready(3 * SEC, &mut buf);
    assert_eq!(buf.len(), 4);
    assert_eq!(buf[3].state, 10);
    assert_eq!(buf[3].meta.id, 1);
    assert_eq!(buf[3].meta.next_fire_in, 3 * SEC);
    assert_eq!(pool.waiting(), 0);
}

#[test]
fn retries_stop_at_the_bound() {
    let mut pool: Pool<noop::Response, u8> =
        Pool::new(Worker::new(Boundary::Limited(10), SEC));
    pool.insert_with_id(1, 9, SEC, 0, 2, 0).unwrap();
    let mut buf = Vec::new();
    pool.release_ready(0, &mut buf);

    for attempt in 0..2u32 {
        let mut launched = pool.spawn(&mut buf);
        assert_eq!(launched.len(), 1);
        let job = launched.pop().unwrap();
        assert_eq!(job.meta.attempt, attempt);
        pool.complete(job, TaskOutcome::Finished(SignalControl::Retry)).unwrap();
        let report = pool.tick(0, &mut buf);
        assert_eq!(report.results.len(), 0);
        assert_eq!(buf.len(), 1);
        assert_eq!(buf[0].meta.attempt, attempt + 1);
        assert!(buf[0].meta.attempt <= buf[0].meta.max_retries);
    }

    let mut launched = pool.spawn(&mut buf);
    let job = launched.pop().unwrap();
    assert_eq!(job.meta.attempt, 2);
    pool.complete(job, TaskOutcome::Finished(SignalControl::Retry)).unwrap();
    let report = pool.tick(0, &mut buf);
    assert_eq!(report.results, vec![(SignalControl::Retry, 9u8)]);
    assert_eq!(buf.len(), 0);
    assert_eq!(pool.job_count(), 1);
}

#[test]
fn dropped_jobs_leave_no_record() {
    let mut pool: Pool<noop::Response, u8> = Pool::new(Worker::new(Boundary::Unlimited, SEC));
    let mut buf = vec![pool.enlist(1), pool.enlist(2), pool.enlist(3)];
    let launched = pool.spawn(&mut buf);
    assert_eq!(launched.len(), 3);
    assert_eq!(pool.job_count(), 4);
    for job in launched {
        let outcome = if job.state == 2 {
            TaskOutcome::Finished(SignalControl::Drop)
        } else {
            TaskOutcome::Finished(SignalControl::Success(NetState::Open, noop::Response))
        };
        pool.complete(job, outcome).unwrap();
    }
    let report = pool.tick(0, &mut buf);
    assert_eq!(report.dropped, 1);
    assert_eq!(
        report.results,
        vec![
            (SignalControl::Success(NetState::Open, noop::Response), 1u8),
            (SignalControl::Success(NetState::Open, noop::Response), 3u8),
        ]
    );
    // every job that came in is recorded or given up
    assert_eq!(report.results.len() + report.dropped, 3);
    assert_eq!(pool.job_count(), 1);
}

fn stash_on_exhausted_descriptors(policy: StashPolicy) -> (Pool<noop::Response, u8>, Vec<Job<u8>>) {
    let mut pool: Pool<noop::Response, u8> =
        Pool::new(Worker::new(Boundary::Limited(10), SEC)).with_stash_policy(policy);
    let mut buf = vec![pool.enlist(5)];
    let mut launched = pool.spawn(&mut buf);
    let job = launched.pop().unwrap();
    assert_eq!(job.meta.attempt, 0);
    pool.complete(job, TaskOutcome::Finished(SignalControl::Error(JobErr::Errno(24)))).unwrap();
    let report = pool.tick(SEC, &mut buf);
    assert_eq!(report.results.len(), 0);
    assert_eq!(report.dropped, 0);
    assert_eq!(buf.len(), 0);
    assert_eq!(pool.stashed(), 1);

    // not ready before five seconds have passed
    assert_eq!(pool.flush_stash(SEC + BACKOFF_NS - 1, &mut buf), 0);
    assert_eq!(buf.len(), 0);
    assert_eq!(pool.flush_stash(SEC + BACKOFF_NS, &mut buf), 1);
    assert_eq!(pool.stashed(), 0);
    assert_eq!(buf.len(), 1);
    assert_eq!(buf[0].state, 5);
    assert_eq!(buf[0].meta.next_fire_in, 5 * SEC);
    (pool, buf)
}

#[test]
fn descriptor_exhaustion_is_stashed_without_using_an_attempt() {
    let (_, buf) = stash_on_exhausted_descriptors(StashPolicy::Free);
    assert_eq!(buf[0].meta.attempt, 0);
}

#[test]
fn descriptor_exhaustion_uses_an_attempt_when_counted() {
    let (_, buf) = stash_on_exhausted_descriptors(StashPolicy::Counted);
    assert_eq!(buf[0].meta.attempt, 1);
}

#[test]
fn a_stashed_job_without_attempts_left_is_recorded() {
    let mut pool: Pool<noop::Response, u8> =
        Pool::new(Worker::new(Boundary::Limited(10), SEC)).with_max_retries(0);
    let mut buf = vec![pool.enlist(5)];
    assert_eq!(buf[0].meta.max_retries, 0);
    assert_eq!(buf[0].meta.ttl, SEC);
    let mut launched = pool.spawn(&mut buf);
    let job = launched.pop().unwrap();
    pool.complete(job, TaskOutcome::Finished(SignalControl::Stash(3 * SEC))).unwrap();
    let report = pool.tick(0, &mut buf);
    assert_eq!(report.results, vec![(SignalControl::Stash(3 * SEC), 5u8)]);
    assert_eq!(pool.stashed(), 0);
}

#[test]
fn errors_that_are_not_io_are_recorded_unchanged() {
    let mut pool: Pool<noop::Response, u8> = Pool::new(Worker::new(Boundary::Unlimited, SEC));
    let mut buf = vec![pool.enlist(1), pool.enlist(2), pool.enlist(3), pool.enlist(4)];
    let launched = pool.spawn(&mut buf);
    for job in launched {
        let outcome = match job.state {
            1 => TaskOutcome::Failed,
            2 => TaskOutcome::Finished(SignalControl::Error(JobErr::Other)),
            3 => TaskOutcome::Finished(SignalControl::Error(JobErr::Timeout)),
            _ => TaskOutcome::Finished(SignalControl::Error(JobErr::IO(
                IoKind::ConnectionRefused,
            ))),
        };
        pool.complete(job, outcome).unwrap();
    }
    let report = pool.tick(0, &mut buf);
    assert_eq!(
        report.results,
        vec![
            (SignalControl::Error(JobErr::TaskFailed), 1u8),
            (SignalControl::Error(JobErr::Other), 2u8),
            (SignalControl::Error(JobErr::Timeout), 3u8),
            (SignalControl::Error(JobErr::IO(IoKind::ConnectionRefused)), 4u8),
        ]
    );
    assert_eq!(buf.len(), 0);
}

#[test]
fn an_unknown_io_error_is_tried_again() {
    let mut pool: Pool<noop::Response, u8> = Pool::new(Worker::new(Boundary::Unlimited, SEC));
    let mut buf = vec![pool.enlist(1), pool.enlist(2)];
    let launched = pool.spawn(&mut buf);
    for job in launched {
        let kind = if job.state == 1 { IoKind::Other } else { IoKind::BrokenPipe };
        pool.complete(job, TaskOutcome::Finished(SignalControl::Error(JobErr::IO(kind))))
            .unwrap();
    }
    let report = pool.tick(0, &mut buf);
    assert_eq!(report.results.len(), 0);
    assert_eq!(buf.len(), 2);
    assert_eq!(buf[0].state, 1);
    assert_eq!(buf[0].meta.attempt, 1);
    assert_eq!(buf[1].state, 2);
    assert_eq!(buf[1].meta.attempt, 1);
}

#[test]
fn tick_launches_no_more_than_the_bound_leaves() {
    let mut pool: Pool<noop::Response, u8> = Pool::new(Worker::new(Boundary::Limited(3), SEC));
    for (id, state) in [(1u128, 10u8), (2, 20), (3, 30), (4, 40)] {
        pool.insert_with_id(id, state, SEC, 0, 3, 0).unwrap();
    }
    let mut buf = Vec::new();
    assert_eq!(pool.calc_new_spawns(4), 2);
    let report = pool.tick(0, &mut buf);
    // one of the three slots is the pool's own
    assert_eq!(report.launched.len(), 2);
    assert_eq!(report.launched[0].state, 10);
    assert_eq!(report.launched[1].state, 20);
    assert_eq!(buf.len(), 2);
    assert_eq!(pool.job_count(), 3);
    assert!(pool.job_count() - 1 <= 3);
    assert_eq!(pool.calc_new_spawns(buf.len()), 0);

    let again = pool.tick(0, &mut buf);
    assert_eq!(again.launched.len(), 0);
    assert_eq!(buf.len(), 2);

    let mut flying = report.launched;
    let job = flying.pop().unwrap();
    pool.complete(job, TaskOutcome::Finished(SignalControl::Success(NetState::Open, noop::Response)))
        .unwrap();
    assert_eq!(pool.job_count(), 2);
    let next = pool.tick(0, &mut buf);
    assert_eq!(next.launched.len(), 1);
    assert_eq!(next.launched[0].state, 30);
    assert_eq!(next.results, vec![(SignalControl::Success(NetState::Open, noop::Response), 20u8)]);
}

#[test]
fn flush_channel_hands_out_what_is_left() {
    let mut pool: Pool<noop::Response, u8> = Pool::new(Worker::new(Boundary::Unlimited, SEC));
    let mut buf = vec![pool.enlist(1), pool.enlist(2)];
    let launched = pool.spawn(&mut buf);
    for job in launched {
        pool.complete(job, TaskOutcome::Finished(SignalControl::Retry)).unwrap();
    }
    let left = pool.flush_channel();
    assert_eq!(left, vec![(SignalControl::Retry, 1u8), (SignalControl::Retry, 2u8)]);
    assert_eq!(pool.flush_channel().len(), 0);
}

#[test]
fn a_completion_without_a_task_in_flight_is_handed_back() {
    let mut pool: Pool<noop::Response, u8> = Pool::new(Worker::new(Boundary::Unlimited, SEC));
    let job = pool.enlist(1);
    let back = pool.complete(job.clone(), TaskOutcome::Failed);
    assert_eq!(back, Err((TaskOutcome::Failed, job)));
    assert_eq!(pool.flush_channel().len(), 0);
}
