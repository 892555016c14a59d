//! The pool: a worker together with the jobs that wait, and the policy that
//! decides for each result whether the job is done, tried again, or put off.

use crate::meta::{fresh_id, is_random_id, Job, JobMeta};
use crate::schedule::{lemma_bank_matches_timer, Schedule};
use crate::signal::{classify, handle_io_error, SignalControl};
use crate::timer::later;
use crate::worker::{allowance, settled, TaskOutcome, Worker};
use vstd::prelude::*;

verus! {

/// Attempts that a target taken from the input may use up.
pub const DEFAULT_RETRIES: u32 = 3;

/// Whether putting a job off uses up one of its attempts.
#[derive(Clone, Copy, Debug, PartialEq, Eq, Structural)]
pub enum StashPolicy {
    /// Putting a job off leaves its attempt counter as it is.
    Free,
    /// Putting a job off counts as an attempt.
    Counted,
}

/// What a signal asks the pool to do with the job.
#[derive(Clone, Copy, Debug, PartialEq, Eq, Structural)]
pub enum Course {
    /// Hand the result to the consumer.
    Finish,
    /// Forget the job.
    Discard,
    /// Try the job again at once.
    Again,
    /// Try the job again after this many nanoseconds.
    Later(u64),
}

/// A job that is put off, and the clock reading from which it may run again.
#[derive(Clone, Debug, PartialEq, Eq)]
pub struct Stashed<S> {
    pub job: Job<S>,
    pub ready_at: u128,
}

/// What one tick asks of the caller and hands to the consumer.
pub struct Tick<R, S> {
    /// The jobs to launch a task for.
    pub launched: Vec<Job<S>>,
    /// The records for the consumer: a signal and the state it belongs to.
    pub results: Vec<(SignalControl<R>, S)>,
    /// The number of jobs that were given up without a record.
    pub dropped: usize,
}

/// The running totals of a pool.
pub struct Ledger {
    /// Jobs that came into the pool: inserted, or launched from a queue.
    pub taken_in: nat,
    /// Jobs that the pool put into a queue of the caller.
    pub handed_out: nat,
    /// Records handed to the consumer.
    pub emitted: nat,
    /// Jobs given up without a record.
    pub dropped: nat,
}

/// What a signal other than an error asks for.
pub open spec fn plain_course<R>(signal: SignalControl<R>) -> Course {
    match signal {
        SignalControl::Success(_, _) => Course::Finish,
        SignalControl::Retry => Course::Again,
        SignalControl::Stash(delay) => Course::Later(delay),
        SignalControl::Drop => Course::Discard,
        SignalControl::Error(_) => Course::Finish,
    }
}

/// What a signal asks for. An error that records an I/O failure asks for
/// what the classification of that failure asks for; any other error is final.
pub open spec fn course_of<R>(signal: SignalControl<R>) -> Course {
    match signal {
        SignalControl::Error(err) => match err.io_failure() {
            Some(failure) => plain_course(classify(failure, ())),
            None => Course::Finish,
        },
        _ => plain_course(signal),
    }
}

/// What a signal asks the pool to do with the job.
pub fn course<R>(signal: &SignalControl<R>) -> (c: Course)
    ensures
        c == course_of(*signal),
{
    match signal {
        SignalControl::Success(_, _) => Course::Finish,
        SignalControl::Retry => Course::Again,
        SignalControl::Stash(delay) => Course::Later(*delay),
        SignalControl::Drop => Course::Discard,
        SignalControl::Error(err) => match err.as_io_failure() {
            Some(failure) => match handle_io_error(failure, ()) {
                SignalControl::Success(_, _) => Course::Finish,
                SignalControl::Retry => Course::Again,
                SignalControl::Stash(delay) => Course::Later(delay),
                SignalControl::Drop => Course::Discard,
                SignalControl::Error(_) => Course::Finish,
            },
            None => Course::Finish,
        },
    }
}

/// Results sorted by what becomes of each job.
pub struct Sorted<R, S> {
    /// The records for the consumer.
    pub emitted: Seq<(SignalControl<R>, S)>,
    /// The jobs to try again at once.
    pub retried: Seq<Job<S>>,
    /// The jobs that are put off.
    pub stashed: Seq<Stashed<S>>,
    /// The number of jobs given up without a record.
    pub dropped: nat,
}

/// Sorts one result in. A job whose signal is final is recorded with that
/// signal. A job that is to be tried again, at once or later, is so only
/// while it has an attempt left; without one it is recorded as it stands. A
/// retry uses up an attempt; putting off does so under
/// [`StashPolicy::Counted`] alone, and the job is ready `delay` nanoseconds
/// after the clock reading.
pub open spec fn sort_one<R, S>(
    acc: Sorted<R, S>,
    signal: SignalControl<R>,
    job: Job<S>,
    clock: u64,
    policy: StashPolicy,
) -> Sorted<R, S> {
    match course_of(signal) {
        Course::Finish => Sorted { emitted: acc.emitted.push((signal, job.state)), ..acc },
        Course::Discard => Sorted { dropped: acc.dropped + 1, ..acc },
        Course::Again => if job.meta.can_retry() {
            Sorted {
                retried: acc.retried.push(Job { meta: job.meta.retried(), state: job.state }),
                ..acc
            }
        } else {
            Sorted { emitted: acc.emitted.push((signal, job.state)), ..acc }
        },
        Course::Later(delay) => if job.meta.can_retry() {
            Sorted {
                stashed: acc.stashed.push(
                    Stashed {
                        job: Job {
                            meta: job.meta.deferred(delay, policy == StashPolicy::Counted),
                            state: job.state,
                        },
                        ready_at: (clock + delay) as u128,
                    },
                ),
                ..acc
            }
        } else {
            Sorted { emitted: acc.emitted.push((signal, job.state)), ..acc }
        },
    }
}

/// Sorts results, oldest first, by what becomes of each job.
pub open spec fn sort_results<R, S>(
    items: Seq<(SignalControl<R>, Job<S>)>,
    clock: u64,
    policy: StashPolicy,
) -> Sorted<R, S>
    decreases items.len(),
{
    if items.len() == 0 {
        Sorted { emitted: Seq::empty(), retried: Seq::empty(), stashed: Seq::empty(), dropped: 0 }
    } else {
        sort_one(
            sort_results(items.drop_last(), clock, policy),
            items.last().0,
            items.last().1,
            clock,
            policy,
        )
    }
}

/// Each result is sorted into exactly one place, and no job that is tried
/// again or put off has used up more attempts than it may.
pub proof fn lemma_sort_partitions<R, S>(
    items: Seq<(SignalControl<R>, Job<S>)>,
    clock: u64,
    policy: StashPolicy,
)
    ensures
        ({
            let sorted = sort_results(items, clock, policy);
            &&& sorted.emitted.len() + sorted.retried.len() + sorted.stashed.len() + sorted.dropped
                == items.len()
            &&& forall|i: int|
                0 <= i < sorted.retried.len() ==> (#[trigger] sorted.retried[i]).meta.wf()
            &&& forall|i: int|
                0 <= i < sorted.stashed.len() ==> (#[trigger] sorted.stashed[i]).job.meta.wf()
            &&& forall|i: int|
                0 <= i < sorted.stashed.len() ==> (#[trigger] sorted.stashed[i]).ready_at >= clock
        }),
    decreases items.len(),
{
    if items.len() > 0 {
        lemma_sort_partitions(items.drop_last(), clock, policy);
    }
}

/// The records that results stand for: each signal with the state of its job.
pub open spec fn records<R, S>(items: Seq<(SignalControl<R>, Job<S>)>) -> Seq<
    (SignalControl<R>, S),
> {
    Seq::new(items.len(), |i: int| (items[i].0, items[i].1.state))
}

/// The jobs of `stash` that are ready at clock reading `t`, in their order.
pub open spec fn ripe_jobs<S>(stash: Seq<Stashed<S>>, t: int) -> Seq<Job<S>>
    decreases stash.len(),
{
    if stash.len() == 0 {
        Seq::empty()
    } else if stash.last().ready_at <= t {
        ripe_jobs(stash.drop_last(), t).push(stash.last().job)
    } else {
        ripe_jobs(stash.drop_last(), t)
    }
}

/// The entries of `stash` that are not ready at clock reading `t`, in their order.
pub open spec fn unripe<S>(stash: Seq<Stashed<S>>, t: int) -> Seq<Stashed<S>>
    decreases stash.len(),
{
    if stash.len() == 0 {
        Seq::empty()
    } else if stash.last().ready_at <= t {
        unripe(stash.drop_last(), t)
    } else {
        unripe(stash.drop_last(), t).push(stash.last())
    }
}

/// Each entry of a stash is either ready or not, and what is left of a
/// stash of jobs within their bounds is within its bounds.
pub proof fn lemma_stash_split<S>(stash: Seq<Stashed<S>>, t: int)
    ensures
        ripe_jobs(stash, t).len() + unripe(stash, t).len() == stash.len(),
        (forall|i: int| 0 <= i < stash.len() ==> (#[trigger] stash[i]).job.meta.wf()) ==> (forall|
            i: int,
        |
            0 <= i < unripe(stash, t).len() ==> (#[trigger] unripe(stash, t)[i]).job.meta.wf()),
        forall|i: int|
            0 <= i < unripe(stash, t).len() ==> (#[trigger] unripe(stash, t)[i]).ready_at > t,
    decreases stash.len(),
{
    if stash.len() > 0 {
        lemma_stash_split(stash.drop_last(), t);
        if forall|i: int| 0 <= i < stash.len() ==> (#[trigger] stash[i]).job.meta.wf() {
            assert forall|i: int| 0 <= i < stash.drop_last().len() implies (
            #[trigger] stash.drop_last()[i]).job.meta.wf() by {
                assert(stash.drop_last()[i] == stash[i]);
            }
            assert(stash.last() == stash[stash.len() - 1]);
        }
    }
}

/// A worker together with the jobs that wait for an attempt.
pub struct Pool<R, S> {
    worker: Worker<R, Job<S>>,
    schedule: Schedule<S>,
    stash: Vec<Stashed<S>>,
    max_retries: u32,
    stash_policy: StashPolicy,
    ledger: Ghost<Ledger>,
}

impl<R, S> Pool<R, S> {
    /// The worker.
    pub closed spec fn worker(&self) -> Worker<R, Job<S>> {
        self.worker
    }

    /// The jobs that wait for their first attempt.
    pub closed spec fn schedule(&self) -> Schedule<S> {
        self.schedule
    }

    /// The jobs that are put off, in the order in which they were.
    pub closed spec fn stash(&self) -> Seq<Stashed<S>> {
        self.stash@
    }

    /// Attempts that a target taken from the input may use up.
    pub closed spec fn max_retries(&self) -> u32 {
        self.max_retries
    }

    /// Whether putting a job off uses up one of its attempts.
    pub closed spec fn stash_policy(&self) -> StashPolicy {
        self.stash_policy
    }

    /// The running totals.
    pub closed spec fn ledger(&self) -> Ledger {
        self.ledger@
    }

    /// The latest clock reading seen.
    pub open spec fn now(&self) -> u64 {
        self.schedule().timer().now()
    }

    /// The number of jobs in the pool: waiting, put off, in flight, or done
    /// with their result not yet handed out.
    pub open spec fn held(&self) -> nat {
        self.schedule().bank().len() + self.stash().len() + self.worker().in_flight()
            + self.worker().pending().len()
    }

    /// Worker and schedule are in order, no job that is put off has used up
    /// more attempts than it may, and the totals balance: every job that
    /// came in was handed out, recorded or given up, or is still held.
    pub open spec fn wf(&self) -> bool {
        &&& self.worker().wf()
        &&& self.schedule().wf()
        &&& forall|i: int|
            0 <= i < self.stash().len() ==> (#[trigger] self.stash()[i]).job.meta.wf()
        &&& self.ledger().taken_in == self.ledger().handed_out + self.ledger().emitted
            + self.ledger().dropped + self.held()
    }

    /// `post` differs from this pool in its schedule and its totals at most.
    pub open spec fn same_work(&self, post: Self) -> bool {
        &&& post.worker() == self.worker()
        &&& post.stash() == self.stash()
        &&& post.same_settings(*self)
    }

    /// `post` has the settings of this pool.
    pub open spec fn same_settings(&self, post: Self) -> bool {
        &&& post.max_retries() == self.max_retries()
        &&& post.stash_policy() == self.stash_policy()
    }

    /// Nothing is lost: the jobs that came in and were not handed back are
    /// those recorded, given up, or still held. Once a run has come to
    /// rest with nothing held, every job that came in and stayed has been
    /// recorded or given up.
    pub proof fn lemma_conservation(self)
        requires
            self.wf(),
        ensures
            self.ledger().taken_in - self.ledger().handed_out == self.ledger().emitted
                + self.ledger().dropped + self.held(),
            self.held() == 0 ==> self.ledger().taken_in - self.ledger().handed_out
                == self.ledger().emitted + self.ledger().dropped,
    {
    }

    /// A pool around `worker`, with nothing waiting and the clock at zero.
    /// Targets from the input get [`DEFAULT_RETRIES`] attempts, and putting
    /// a job off is free.
    pub fn new(worker: Worker<R, Job<S>>) -> (pool: Self)
        requires
            worker.wf(),
        ensures
            pool.wf(),
            pool.worker() == worker,
            pool.schedule().bank() == Map::<u128, Job<S>>::empty(),
            pool.schedule().queue() == Seq::<crate::timer::TimerEntry>::empty(),
            pool.now() == 0,
            pool.stash() == Seq::<Stashed<S>>::empty(),
            pool.max_retries() == DEFAULT_RETRIES,
            pool.stash_policy() == StashPolicy::Free,
            pool.ledger().taken_in == worker.in_flight() + worker.pending().len(),
            pool.ledger().handed_out == 0,
            pool.ledger().emitted == 0,
            pool.ledger().dropped == 0,
    {
        let ghost ledger = Ledger {
            taken_in: worker.in_flight() + worker.pending().len(),
            handed_out: 0,
            emitted: 0,
            dropped: 0,
        };
        Pool {
            worker,
            schedule: Schedule::new(),
            stash: Vec::new(),
            max_retries: DEFAULT_RETRIES,
            stash_policy: StashPolicy::Free,
            ledger: Ghost(ledger),
        }
    }

    /// The same pool, with `max_retries` attempts for targets from the input.
    pub fn with_max_retries(self, max_retries: u32) -> (pool: Self)
        requires
            self.wf(),
        ensures
            pool.wf(),
            pool.worker() == self.worker(),
            pool.schedule() == self.schedule(),
            pool.stash() == self.stash(),
            pool.ledger() == self.ledger(),
            pool.stash_policy() == self.stash_policy(),
            pool.max_retries() == max_retries,
    {
        Pool { max_retries, ..self }
    }

    /// The same pool, with `stash_policy` for jobs that are put off.
    pub fn with_stash_policy(self, stash_policy: StashPolicy) -> (pool: Self)
        requires
            self.wf(),
        ensures
            pool.wf(),
            pool.worker() == self.worker(),
            pool.schedule() == self.schedule(),
            pool.stash() == self.stash(),
            pool.ledger() == self.ledger(),
            pool.max_retries() == self.max_retries(),
            pool.stash_policy() == stash_policy,
    {
        Pool { stash_policy, ..self }
    }

    /// Files a job for `state` under `id`: never tried, `max_retries`
    /// attempts, `ttl` nanoseconds for each, due `fire_in` nanoseconds after
    /// the clock reading. Where a job is already waiting under `id`, the
    /// state is handed back and nothing changes.
    pub fn insert_with_id(
        &mut self,
        id: u128,
        state: S,
        ttl: u64,
        fire_in: u64,
        max_retries: u32,
        now: u64,
    ) -> (r: Result<(), S>)
        requires
            old(self).wf(),
        ensures
            final(self).wf(),
            old(self).same_work(*final(self)),
            match r {
                Ok(()) => {
                    &&& !old(self).schedule().bank().contains_key(id)
                    &&& old(self).schedule().armed(
                        final(self).schedule(),
                        Job { meta: JobMeta::fresh(id, ttl, fire_in, max_retries), state },
                        now,
                    )
                    &&& final(self).ledger() == (Ledger {
                        taken_in: old(self).ledger().taken_in + 1,
                        ..old(self).ledger()
                    })
                },
                Err(back) => {
                    &&& old(self).schedule().bank().contains_key(id)
                    &&& back == state
                    &&& final(self).schedule().bank() == old(self).schedule().bank()
                    &&& final(self).schedule().timer() == old(self).schedule().timer()
                    &&& final(self).ledger() == old(self).ledger()
                },
            },
    {
        let meta = JobMeta::new(id, ttl, fire_in, max_retries);
        proof {
            lemma_bank_matches_timer(self.schedule.bank(), self.schedule.queue());
        }
        match self.schedule.insert(meta, state, now) {
            Ok(()) => {
                proof {
                    lemma_bank_matches_timer(self.schedule.bank(), self.schedule.queue());
                }
                self.ledger = Ghost(Ledger { taken_in: self.ledger@.taken_in + 1, ..self.ledger@ });
                Ok(())
            },
            Err(job) => Err(job.state),
        }
    }

    /// Files a job for `state` under an identifier drawn at random, and
    /// answers with the identifier. It fails only where a job is already
    /// waiting under the identifier drawn: the state is then handed back
    /// and nothing changes.
    pub fn insert(&mut self, state: S, ttl: u64, fire_in: u64, max_retries: u32, now: u64) -> (r:
        Result<u128, S>)
        requires
            old(self).wf(),
        ensures
            final(self).wf(),
            old(self).same_work(*final(self)),
            match r {
                Ok(id) => {
                    &&& is_random_id(id)
                    &&& !old(self).schedule().bank().contains_key(id)
                    &&& old(self).schedule().armed(
                        final(self).schedule(),
                        Job { meta: JobMeta::fresh(id, ttl, fire_in, max_retries), state },
                        now,
                    )
                    &&& final(self).ledger() == (Ledger {
                        taken_in: old(self).ledger().taken_in + 1,
                        ..old(self).ledger()
                    })
                },
                Err(back) => {
                    &&& exists|id: u128|
                        is_random_id(id) && #[trigger] old(self).schedule().bank().contains_key(
                            id,
                        )
                    &&& back == state
                    &&& final(self).schedule().bank() == old(self).schedule().bank()
                    &&& final(self).schedule().timer() == old(self).schedule().timer()
                    &&& final(self).ledger() == old(self).ledger()
                },
            },
    {
        let id: u128 = fresh_id();
        match self.insert_with_id(id, state, ttl, fire_in, max_retries, now) {
            Ok(()) => Ok(id),
            Err(back) => Err(back),
        }
    }

    /// A job for a target from the input, under `id`: never tried, due at
    /// once, with the worker's time to live and the pool's attempts.
    pub fn enlist_with_id(&self, id: u128, state: S) -> (job: Job<S>)
        ensures
            job == (Job {
                meta: JobMeta::fresh(id, self.worker().ttl(), 0, self.max_retries()),
                state,
            }),
            job.meta.wf(),
    {
        Job { meta: JobMeta::new(id, self.worker.time_to_live(), 0, self.max_retries), state }
    }

    /// A job for a target from the input, under an identifier drawn at random.
    pub fn enlist(&self, state: S) -> (job: Job<S>)
        ensures
            is_random_id(job.meta.id),
            job == (Job {
                meta: JobMeta::fresh(job.meta.id, self.worker().ttl(), 0, self.max_retries()),
                state,
            }),
            job.meta.wf(),
    {
        let id: u128 = fresh_id();
        self.enlist_with_id(id, state)
    }

    /// Moves every waiting job that is due at the clock reading into
    /// `out_buf`, in the order of the due times. Returns at once where
    /// nothing is due.
    pub fn release_ready(&mut self, now: u64, out_buf: &mut Vec<Job<S>>)
        requires
            old(self).wf(),
        ensures
            final(self).wf(),
            old(self).same_work(*final(self)),
            old(self).schedule().released(final(self).schedule(), now),
            final(out_buf)@ == old(out_buf)@ + old(self).schedule().due(now),
            final(self).ledger() == (Ledger {
                handed_out: old(self).ledger().handed_out + old(self).schedule().due(now).len(),
                ..old(self).ledger()
            }),
    {
        let ghost due = self.schedule.due(now);
        self.schedule.release_ready(now, out_buf);
        self.ledger = Ghost(
            Ledger { handed_out: self.ledger@.handed_out + due.len(), ..self.ledger@ },
        );
    }

    /// The number of queued jobs, out of `queued_len`, that may be launched now.
    pub fn calc_new_spawns(&self, queued_len: usize) -> (count: usize)
        requires
            self.wf(),
        ensures
            count == allowance(
                self.worker().throttle(),
                self.worker().spec_job_count() as int,
                queued_len as int,
            ),
            count <= queued_len,
    {
        self.worker.spawn_allowance(queued_len)
    }

    /// Moves every job that was put off and is ready at the clock reading
    /// into `out_buf`, in the order in which they were put off, and answers
    /// with their number.
    pub fn flush_stash(&mut self, now: u64, out_buf: &mut Vec<Job<S>>) -> (count: usize)
        requires
            old(self).wf(),
        ensures
            final(self).wf(),
            final(self).worker() == old(self).worker(),
            old(self).same_settings(*final(self)),
            final(self).now() == later(old(self).now(), now),
            final(self).schedule().bank() == old(self).schedule().bank(),
            final(self).schedule().queue() == old(self).schedule().queue(),
            final(self).schedule().timer().last_released() == old(
                self,
            ).schedule().timer().last_released(),
            final(out_buf)@ == old(out_buf)@ + ripe_jobs(
                old(self).stash(),
                final(self).now() as int,
            ),
            final(self).stash() == unripe(old(self).stash(), final(self).now() as int),
            count == ripe_jobs(old(self).stash(), final(self).now() as int).len(),
            final(self).ledger() == (Ledger {
                handed_out: old(self).ledger().handed_out + count as nat,
                ..old(self).ledger()
            }),
    {
        let t: u64 = self.schedule.observe(now);
        let mut waiting: Vec<Stashed<S>> = Vec::new();
        core::mem::swap(&mut self.stash, &mut waiting);
        let ghost all = waiting@;
        let ghost out0 = out_buf@;
        let ghost worker0 = self.worker;
        let ghost schedule0 = self.schedule;
        let ghost ledger0 = self.ledger@;
        let total: usize = waiting.len();
        let mut count: usize = 0;
        for entry in it: waiting
            invariant
                it.seq() == all,
                all.len() == total,
                self.worker == worker0,
                self.schedule == schedule0,
                self.ledger@ == ledger0,
                self.max_retries == old(self).max_retries,
                self.stash_policy == old(self).stash_policy,
                out_buf@ == out0 + ripe_jobs(all.take(it.index() as int), t as int),
                self.stash@ == unripe(all.take(it.index() as int), t as int),
                count == ripe_jobs(all.take(it.index() as int), t as int).len(),
                count <= it.index(),
        {
            proof {
                assert(all.take(it.index() + 1).drop_last() =~= all.take(it.index() as int));
            }
            if entry.ready_at <= t as u128 {
                out_buf.push(entry.job);
                count = count + 1;
            } else {
                self.stash.push(entry);
            }
        }
        proof {
            assert(all.take(all.len() as int) =~= all);
            lemma_stash_split(all, t as int);
        }
        self.ledger = Ghost(
            Ledger { handed_out: self.ledger@.handed_out + count as nat, ..self.ledger@ },
        );
        count
    }

    /// Takes the jobs that may be launched now off the front of `buf` and
    /// counts them as in flight. The caller launches a task for each job
    /// handed out, and reports its end with [`Pool::complete`].
    pub fn spawn(&mut self, buf: &mut Vec<Job<S>>) -> (launched: Vec<Job<S>>)
        requires
            old(self).wf(),
        ensures
            final(self).wf(),
            final(self).schedule() == old(self).schedule(),
            final(self).stash() == old(self).stash(),
            old(self).same_settings(*final(self)),
            launched@.len() == allowance(
                old(self).worker().throttle(),
                old(self).worker().spec_job_count() as int,
                old(buf)@.len() as int,
            ),
            launched@ == old(buf)@.take(launched@.len() as int),
            final(buf)@ == old(buf)@.skip(launched@.len() as int),
            final(self).worker().in_flight() == old(self).worker().in_flight() + launched@.len(),
            final(self).worker().pending() == old(self).worker().pending(),
            final(self).worker().throttle() == old(self).worker().throttle(),
            final(self).worker().ttl() == old(self).worker().ttl(),
            final(self).ledger() == (Ledger {
                taken_in: old(self).ledger().taken_in + launched@.len(),
                ..old(self).ledger()
            }),
    {
        let launched = self.worker.fire_jobs(buf);
        self.ledger = Ghost(
            Ledger { taken_in: self.ledger@.taken_in + launched@.len(), ..self.ledger@ },
        );
        launched
    }

    /// Collects the result of the task that ran `job`: one pair of its
    /// signal and the job, behind all results collected before. With no task
    /// in flight there is nothing to end; outcome and job are handed back.
    pub fn complete(&mut self, job: Job<S>, outcome: TaskOutcome<R>) -> (r: Result<
        (),
        (TaskOutcome<R>, Job<S>),
    >)
        requires
            old(self).wf(),
        ensures
            final(self).wf(),
            final(self).schedule() == old(self).schedule(),
            final(self).stash() == old(self).stash(),
            final(self).ledger() == old(self).ledger(),
            old(self).same_settings(*final(self)),
            final(self).worker().throttle() == old(self).worker().throttle(),
            final(self).worker().ttl() == old(self).worker().ttl(),
            match r {
                Ok(()) => {
                    &&& old(self).worker().in_flight() > 0
                    &&& final(self).worker().in_flight() == old(self).worker().in_flight() - 1
                    &&& final(self).worker().pending() == old(self).worker().pending().push(
                        (settled(outcome), job),
                    )
                },
                Err(back) => {
                    &&& old(self).worker().in_flight() == 0
                    &&& back == (outcome, job)
                    &&& final(self).worker().in_flight() == 0
                    &&& final(self).worker().pending() == old(self).worker().pending()
                },
            },
    {
        self.worker.complete(outcome, job)
    }

    /// One pass of the engine at the clock reading `now`.
    ///
    /// The waiting jobs that are due join `buf`. The jobs that may be
    /// launched leave the front of `buf`. Then every collected result is
    /// sorted as [`sort_one`] says: records go to the consumer, jobs that are
    /// put off go to the stash, and jobs to try again at once join `buf`
    /// behind what was left of it.
    pub fn tick(&mut self, now: u64, buf: &mut Vec<Job<S>>) -> (report: Tick<R, S>)
        requires
            old(self).wf(),
        ensures
            final(self).wf(),
            old(self).same_settings(*final(self)),
            old(self).schedule().released(final(self).schedule(), now),
            ({
                let queued = old(buf)@ + old(self).schedule().due(now);
                let count = allowance(
                    old(self).worker().throttle(),
                    old(self).worker().spec_job_count() as int,
                    queued.len() as int,
                );
                let sorted = sort_results(
                    old(self).worker().pending(),
                    final(self).now(),
                    old(self).stash_policy(),
                );
                &&& report.launched@ == queued.take(count)
                &&& report.results@ == sorted.emitted
                &&& report.dropped == sorted.dropped
                &&& final(buf)@ == queued.skip(count) + sorted.retried
                &&& final(self).stash() == old(self).stash() + sorted.stashed
                &&& final(self).worker().in_flight() == old(self).worker().in_flight() + count
                &&& final(self).worker().pending() == Seq::<(SignalControl<R>, Job<S>)>::empty()
                &&& final(self).worker().throttle() == old(self).worker().throttle()
                &&& final(self).worker().ttl() == old(self).worker().ttl()
                &&& final(self).ledger() == (Ledger {
                    taken_in: old(self).ledger().taken_in + count as nat,
                    handed_out: old(self).ledger().handed_out + old(self).schedule().due(now).len()
                        + sorted.retried.len(),
                    emitted: old(self).ledger().emitted + sorted.emitted.len(),
                    dropped: old(self).ledger().dropped + sorted.dropped,
                })
            }),
    {
        self.release_ready(now, buf);
        let launched = self.spawn(buf);
        let t: u64 = self.schedule.clock();
        let drained = self.worker.drain_results();
        let counted: bool = match self.stash_policy {
            StashPolicy::Counted => true,
            StashPolicy::Free => false,
        };
        let ghost all = drained@;
        let ghost policy = self.stash_policy;
        let ghost stash0 = self.stash@;
        let ghost worker1 = self.worker;
        let ghost schedule1 = self.schedule;
        let ghost ledger1 = self.ledger@;
        let mut results: Vec<(SignalControl<R>, S)> = Vec::new();
        let mut retried: Vec<Job<S>> = Vec::new();
        let mut dropped: usize = 0;
        let total: usize = drained.len();
        proof {
            assert(stash0 + Seq::<Stashed<S>>::empty() =~= stash0);
        }
        for item in it: drained
            invariant
                it.seq() == all,
                all.len() == total,
                self.worker == worker1,
                self.schedule == schedule1,
                self.ledger@ == ledger1,
                self.max_retries == old(self).max_retries,
                self.stash_policy == policy,
                counted == (policy == StashPolicy::Counted),
                results@ == sort_results(all.take(it.index() as int), t, policy).emitted,
                retried@ == sort_results(all.take(it.index() as int), t, policy).retried,
                self.stash@ == stash0 + sort_results(
                    all.take(it.index() as int),
                    t,
                    policy,
                ).stashed,
                dropped == sort_results(all.take(it.index() as int), t, policy).dropped,
                dropped <= it.index(),
        {
            proof {
                assert(all.take(it.index() + 1).drop_last() =~= all.take(it.index() as int));
                assert(all.take(it.index() + 1).last() == all[it.index() as int]);
            }
            let ghost before = sort_results(all.take(it.index() as int), t, policy);
            let (signal, job) = item;
            match course(&signal) {
                Course::Finish => {
                    results.push((signal, job.state));
                },
                Course::Discard => {
                    dropped = dropped + 1;
                },
                Course::Again => {
                    if job.meta.attempts_remain() {
                        retried.push(Job { meta: job.meta.retry(), state: job.state });
                    } else {
                        results.push((signal, job.state));
                    }
                },
                Course::Later(delay) => {
                    if job.meta.attempts_remain() {
                        self.stash.push(
                            Stashed {
                                job: Job {
                                    meta: job.meta.defer(delay, counted),
                                    state: job.state,
                                },
                                ready_at: t as u128 + delay as u128,
                            },
                        );
                        proof {
                            assert(self.stash@ =~= stash0 + before.stashed.push(
                                self.stash@.last(),
                            ));
                        }
                    } else {
                        results.push((signal, job.state));
                    }
                },
            }
        }
        let ghost sorted = sort_results(all, t, policy);
        proof {
            assert(all.take(all.len() as int) =~= all);
            lemma_sort_partitions(all, t, policy);
        }
        buf.append(&mut retried);
        self.ledger = Ghost(
            Ledger {
                handed_out: self.ledger@.handed_out + sorted.retried.len(),
                emitted: self.ledger@.emitted + sorted.emitted.len(),
                dropped: self.ledger@.dropped + sorted.dropped,
                ..self.ledger@
            },
        );
        Tick { launched, results, dropped }
    }

    /// Hands out whatever results are still collected, each as the record
    /// of its signal and state, oldest first. For the end of a run: no job
    /// is tried again or put off.
    pub fn flush_channel(&mut self) -> (results: Vec<(SignalControl<R>, S)>)
        requires
            old(self).wf(),
        ensures
            final(self).wf(),
            final(self).schedule() == old(self).schedule(),
            final(self).stash() == old(self).stash(),
            old(self).same_settings(*final(self)),
            results@ == records(old(self).worker().pending()),
            final(self).worker().pending() == Seq::<(SignalControl<R>, Job<S>)>::empty(),
            final(self).worker().in_flight() == old(self).worker().in_flight(),
            final(self).worker().throttle() == old(self).worker().throttle(),
            final(self).worker().ttl() == old(self).worker().ttl(),
            final(self).ledger() == (Ledger {
                emitted: old(self).ledger().emitted + results@.len(),
                ..old(self).ledger()
            }),
    {
        let drained = self.worker.drain_results();
        let ghost all = drained@;
        let mut results: Vec<(SignalControl<R>, S)> = Vec::new();
        for item in it: drained
            invariant
                it.seq() == all,
                results@ == records(all.take(it.index() as int)),
        {
            let (signal, job) = item;
            results.push((signal, job.state));
            proof {
                assert(results@ =~= records(all.take(it.index() + 1)));
            }
        }
        proof {
            assert(all.take(all.len() as int) =~= all);
        }
        self.ledger = Ghost(
            Ledger { emitted: self.ledger@.emitted + results@.len(), ..self.ledger@ },
        );
        results
    }

    /// The live handles on the result ring: one for each task in flight and
    /// one of the pool's own; 1 when no task is in flight.
    pub fn job_count(&self) -> (count: usize)
        requires
            self.wf(),
        ensures
            count == self.worker().spec_job_count(),
            self.worker().throttle() matches crate::boundary::Boundary::Limited(n) ==> count - 1
                <= n,
    {
        self.worker.job_count()
    }

    /// The number of jobs that wait for their first attempt: as many as
    /// the bank holds, and as many as the timer holds.
    pub fn waiting(&self) -> (n: usize)
        requires
            self.wf(),
        ensures
            n == self.schedule().bank().len(),
            n == self.schedule().queue().len(),
    {
        self.schedule.len()
    }

    /// The number of jobs that are put off.
    pub fn stashed(&self) -> (n: usize)
        ensures
            n == self.stash().len(),
    {
        self.stash.len()
    }

    /// The latest clock reading seen.
    pub fn clock(&self) -> (t: u64)
        ensures
            t == self.now(),
    {
        self.schedule.clock()
    }
}

} // verus!
