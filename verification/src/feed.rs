//! The steps of the scheduling loop that need no waiting: taking targets
//! from the input into the queue, launching what the pool has room for,
//! and telling when a run is over.

use crate::meta::{is_random_id, Job, JobMeta};
use crate::pool::{ripe_jobs, unripe, Ledger, Pool};
use crate::timer::later;
use crate::worker::allowance;
use vstd::prelude::*;

verus! {

/// The number of targets taken from the input at a time.
pub const CHUNK: usize = 4000;

/// Nanoseconds that the loop yields for between two ticks.
pub const TICK_NS: u64 = 500;

/// What the first half of a feeding step found.
#[derive(Clone, Copy, Debug, PartialEq, Eq, Structural)]
pub struct FeedPlan {
    /// The number of queued jobs that the pool had room for.
    pub alloc: usize,
    /// The number of jobs that came back from the stash.
    pub released: usize,
    /// The number of further targets to take from the input.
    pub top_up: usize,
}

/// `job` is the job of a target `state` from the input of `pool`: never
/// tried, due at once, under an identifier drawn at random.
pub open spec fn enlisted<R, S>(pool: Pool<R, S>, job: Job<S>, state: S) -> bool {
    &&& is_random_id(job.meta.id)
    &&& job == (Job {
        meta: JobMeta::fresh(job.meta.id, pool.worker().ttl(), 0, pool.max_retries()),
        state,
    })
}

/// `post` is `pre` with a job for each target of `chunk` behind it, in the
/// order of `chunk`.
pub open spec fn enqueued<R, S>(
    pool: Pool<R, S>,
    pre: Seq<Job<S>>,
    chunk: Seq<S>,
    post: Seq<Job<S>>,
) -> bool {
    &&& post.len() == pre.len() + chunk.len()
    &&& post.take(pre.len() as int) == pre
    &&& forall|i: int|
        0 <= i < chunk.len() ==> enlisted(pool, #[trigger] post[pre.len() + i], chunk[i])
}

/// The targets still to take from the input when the pool has room for
/// `alloc` jobs and `released` came back from the stash.
pub open spec fn shortfall(alloc: int, released: int) -> int {
    if released >= alloc {
        0
    } else {
        alloc - released
    }
}

/// Puts a job for each target of `chunk` behind the queued jobs.
pub fn enqueue<R, S>(pool: &Pool<R, S>, queued: &mut Vec<Job<S>>, chunk: Vec<S>)
    ensures
        enqueued(*pool, old(queued)@, chunk@, final(queued)@),
{
    let ghost pre = queued@;
    let ghost all = chunk@;
    proof {
        assert(pre.take(pre.len() as int) =~= pre);
    }
    for state in it: chunk
        invariant
            it.seq() == all,
            enqueued(*pool, pre, all.take(it.index() as int), queued@),
    {
        let ghost before = queued@;
        let job = pool.enlist(state);
        queued.push(job);
        proof {
            assert(queued@.take(pre.len() as int) =~= before.take(pre.len() as int));
            assert forall|i: int| 0 <= i < it.index() + 1 implies enlisted(
                *pool,
                #[trigger] queued@[pre.len() + i],
                all.take(it.index() + 1)[i],
            ) by {
                if i < it.index() {
                    assert(queued@[pre.len() + i] == before[pre.len() + i]);
                    assert(all.take(it.index() as int)[i] == all[i]);
                }
            }
        }
    }
    proof {
        assert(all.take(all.len() as int) =~= all);
    }
}

/// The first half of a feeding step. The targets of `chunk`, taken from the
/// input, join the queue. Where the pool has room for any of the queue, the
/// jobs that were put off and are ready join it too, ahead of further
/// input; the plan says how many further targets to take.
pub fn fire_from_feeder<R, S>(
    pool: &mut Pool<R, S>,
    queued: &mut Vec<Job<S>>,
    chunk: Vec<S>,
    now: u64,
) -> (plan: FeedPlan)
    requires
        old(pool).wf(),
    ensures
        final(pool).wf(),
        final(pool).worker() == old(pool).worker(),
        old(pool).same_settings(*final(pool)),
        final(pool).schedule().bank() == old(pool).schedule().bank(),
        final(pool).schedule().queue() == old(pool).schedule().queue(),
        plan.top_up == shortfall(plan.alloc as int, plan.released as int),
        exists|fed: Seq<Job<S>>|
            {
                &&& #[trigger] enqueued(*old(pool), old(queued)@, chunk@, fed)
                &&& plan.alloc == allowance(
                    old(pool).worker().throttle(),
                    old(pool).worker().spec_job_count() as int,
                    fed.len() as int,
                )
                &&& if plan.alloc > 0 {
                    let t = later(old(pool).now(), now);
                    &&& final(pool).now() == t
                    &&& final(queued)@ == fed + ripe_jobs(old(pool).stash(), t as int)
                    &&& final(pool).stash() == unripe(old(pool).stash(), t as int)
                    &&& plan.released == ripe_jobs(old(pool).stash(), t as int).len()
                    &&& final(pool).ledger() == (Ledger {
                        handed_out: old(pool).ledger().handed_out + plan.released as nat,
                        ..old(pool).ledger()
                    })
                } else {
                    &&& final(pool).now() == old(pool).now()
                    &&& final(queued)@ == fed
                    &&& final(pool).stash() == old(pool).stash()
                    &&& plan.released == 0
                    &&& final(pool).ledger() == old(pool).ledger()
                }
            },
{
    enqueue(pool, queued, chunk);
    let ghost fed = queued@;
    let alloc: usize = pool.calc_new_spawns(queued.len());
    if alloc > 0 {
        let released: usize = pool.flush_stash(now, queued);
        let top_up: usize = if released >= alloc {
            0
        } else {
            alloc - released
        };
        proof {
            assert(enqueued(*old(pool), old(queued)@, chunk@, fed));
        }
        FeedPlan { alloc, released, top_up }
    } else {
        proof {
            assert(enqueued(*old(pool), old(queued)@, chunk@, fed));
        }
        FeedPlan { alloc, released: 0, top_up: 0 }
    }
}

/// The second half of a feeding step, for a plan with room for at least
/// one job. The targets of `extra`, taken from the input to fill the plan,
/// join the queue; then the pool launches what it has room for.
pub fn fire_topped_up<R, S>(pool: &mut Pool<R, S>, queued: &mut Vec<Job<S>>, extra: Vec<S>) -> (launched:
    Vec<Job<S>>)
    requires
        old(pool).wf(),
    ensures
        final(pool).wf(),
        final(pool).schedule() == old(pool).schedule(),
        final(pool).stash() == old(pool).stash(),
        old(pool).same_settings(*final(pool)),
        final(pool).worker().in_flight() == old(pool).worker().in_flight() + launched@.len(),
        final(pool).worker().pending() == old(pool).worker().pending(),
        final(pool).worker().throttle() == old(pool).worker().throttle(),
        final(pool).worker().ttl() == old(pool).worker().ttl(),
        final(pool).ledger() == (Ledger {
            taken_in: old(pool).ledger().taken_in + launched@.len(),
            ..old(pool).ledger()
        }),
        exists|fed: Seq<Job<S>>|
            {
                &&& #[trigger] enqueued(*old(pool), old(queued)@, extra@, fed)
                &&& launched@.len() == allowance(
                    old(pool).worker().throttle(),
                    old(pool).worker().spec_job_count() as int,
                    fed.len() as int,
                )
                &&& launched@ == fed.take(launched@.len() as int)
                &&& final(queued)@ == fed.skip(launched@.len() as int)
            },
{
    enqueue(pool, queued, extra);
    let ghost fed = queued@;
    let launched = pool.spawn(queued);
    proof {
        assert(enqueued(*old(pool), old(queued)@, extra@, fed));
    }
    launched
}

/// A run is over when nothing is queued, the input is used up, and no task
/// is in flight, so that the only handle on the result ring is the pool's own.
pub open spec fn run_is_over(queued_len: usize, feeder_done: bool, job_count: usize) -> bool {
    queued_len == 0 && feeder_done && job_count == 1
}

/// Whether the scheduling loop ends after this tick.
pub fn should_stop(queued_len: usize, feeder_done: bool, job_count: usize) -> (stop: bool)
    ensures
        stop == run_is_over(queued_len, feeder_done, job_count),
{
    queued_len == 0 && feeder_done && job_count == 1
}

} // verus!
