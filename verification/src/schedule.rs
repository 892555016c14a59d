//! The schedule: jobs that wait for their first attempt, each in the bank
//! under its identifier and armed in the timer.

use crate::meta::{Job, JobMeta};
use crate::timer::{later, lemma_ripe_unique, ripe_count, Timer, TimerEntry};
use std::collections::HashMap;
use vstd::prelude::*;

verus! {

/// The identifiers of the first `k` entries of `q`.
pub open spec fn ids_upto(q: Seq<TimerEntry>, k: int) -> Set<u128> {
    Set::new(|id: u128| exists|i: int| 0 <= i < k && i < q.len() && (#[trigger] q[i]).id == id)
}

/// The jobs that `bank` holds for the entries of `q`, in the order of `q`.
pub open spec fn bank_jobs<S>(bank: Map<u128, Job<S>>, q: Seq<TimerEntry>) -> Seq<Job<S>> {
    Seq::new(q.len(), |i: int| bank[q[i].id])
}

/// Bank and timer speak of the same jobs: each timer entry names one job of
/// the bank, no two name the same, and each job of the bank is named. A job
/// is filed under its own identifier and has not used up more attempts than
/// it may.
pub open spec fn linked<S>(bank: Map<u128, Job<S>>, q: Seq<TimerEntry>) -> bool {
    &&& forall|i: int, j: int| 0 <= i < j < q.len() ==> q[i].id != q[j].id
    &&& forall|i: int| 0 <= i < q.len() ==> bank.contains_key((#[trigger] q[i]).id)
    &&& forall|id: u128| #[trigger]
        bank.contains_key(id) ==> exists|i: int| 0 <= i < q.len() && (#[trigger] q[i]).id == id
    &&& forall|id: u128| #[trigger]
        bank.contains_key(id) ==> bank[id].meta.id == id && bank[id].meta.wf()
}

/// A bank and a timer that speak of the same jobs hold equally many.
pub proof fn lemma_bank_matches_timer<S>(bank: Map<u128, Job<S>>, q: Seq<TimerEntry>)
    requires
        linked(bank, q),
    ensures
        bank.dom().finite(),
        bank.len() == q.len(),
{
    broadcast use vstd::seq_lib::seq_to_set_is_finite;

    let ids = q.map_values(|e: TimerEntry| e.id);
    assert(ids.no_duplicates());
    ids.unique_seq_to_set();
    assert(ids.to_set() =~= bank.dom()) by {
        assert forall|id: u128| ids.to_set().contains(id) implies bank.dom().contains(id) by {
            let i = choose|i: int| 0 <= i < ids.len() && ids[i] == id;
            assert(bank.contains_key(q[i].id));
        }
        assert forall|id: u128| bank.dom().contains(id) implies ids.to_set().contains(id) by {
            let i = choose|i: int| 0 <= i < q.len() && (#[trigger] q[i]).id == id;
            assert(ids[i] == id);
        }
    }
}

/// The jobs that wait for their first attempt.
pub struct Schedule<S> {
    timer: Timer,
    bank: HashMap<u128, Job<S>>,
}

impl<S> Schedule<S> {
    /// The waiting jobs by identifier.
    pub closed spec fn bank(&self) -> Map<u128, Job<S>> {
        self.bank@
    }

    /// The timer that the waiting jobs are armed in.
    pub closed spec fn timer(&self) -> Timer {
        self.timer
    }

    /// The timer entries in the order of their release.
    pub open spec fn queue(&self) -> Seq<TimerEntry> {
        self.timer().queue()
    }

    /// The timer is in order, and bank and timer speak of the same jobs.
    pub open spec fn wf(&self) -> bool {
        &&& self.timer().wf()
        &&& linked(self.bank(), self.queue())
    }

    /// The number of jobs that are due when the clock is read as `now`.
    pub open spec fn due_count(&self, now: u64) -> int {
        ripe_count(self.queue(), later(self.timer().now(), now) as int) as int
    }

    /// The jobs that are due when the clock is read as `now`, in the order
    /// of their due times.
    pub open spec fn due(&self, now: u64) -> Seq<Job<S>> {
        bank_jobs(self.bank(), self.queue().take(self.due_count(now)))
    }

    /// `post` is this schedule after `job` was filed and armed at clock
    /// reading `now`: the job is in the bank under its identifier, and its
    /// timer entry stands behind every entry that is due no later.
    pub open spec fn armed(&self, post: Self, job: Job<S>, now: u64) -> bool {
        let fire_at = (later(self.timer().now(), now) + job.meta.next_fire_in) as u128;
        &&& post.bank() == self.bank().insert(job.meta.id, job)
        &&& post.timer().now() == later(self.timer().now(), now)
        &&& post.timer().last_released() == self.timer().last_released()
        &&& post.queue() == self.queue().insert(
            ripe_count(self.queue(), fire_at as int) as int,
            TimerEntry { id: job.meta.id, fire_at },
        )
    }

    /// `post` is this schedule after the jobs due at clock reading `now`
    /// have left bank and timer.
    pub open spec fn released(&self, post: Self, now: u64) -> bool {
        &&& 0 <= self.due_count(now) <= self.queue().len()
        &&& post.timer().now() == later(self.timer().now(), now)
        &&& post.timer().last_released() >= self.timer().last_released()
        &&& post.queue() == self.queue().skip(self.due_count(now))
        &&& post.bank() == self.bank().remove_keys(ids_upto(self.queue(), self.due_count(now)))
    }

    /// A schedule without jobs, whose clock reads zero.
    pub fn new() -> (schedule: Self)
        ensures
            schedule.wf(),
            schedule.bank() == Map::<u128, Job<S>>::empty(),
            schedule.queue() == Seq::<TimerEntry>::empty(),
            schedule.timer().now() == 0,
            schedule.timer().last_released() == 0,
    {
        Schedule { timer: Timer::new(), bank: HashMap::new() }
    }

    /// The number of waiting jobs: that of the bank, and that of the timer.
    pub fn len(&self) -> (n: usize)
        requires
            self.wf(),
        ensures
            n == self.bank().len(),
            n == self.queue().len(),
    {
        proof {
            lemma_bank_matches_timer(self.bank(), self.queue());
        }
        self.bank.len()
    }

    /// The latest clock reading seen.
    pub fn clock(&self) -> (t: u64)
        ensures
            t == self.timer().now(),
    {
        self.timer.clock()
    }

    /// Takes a clock reading and answers with the reading that now counts.
    pub fn observe(&mut self, now: u64) -> (t: u64)
        requires
            old(self).wf(),
        ensures
            final(self).wf(),
            t == later(old(self).timer().now(), now),
            final(self).timer().now() == t,
            final(self).timer().last_released() == old(self).timer().last_released(),
            final(self).queue() == old(self).queue(),
            final(self).bank() == old(self).bank(),
    {
        self.timer.observe(now)
    }

    /// Files a job in the bank and arms the timer for it, due
    /// `meta.next_fire_in` nanoseconds after the clock reading. A job whose
    /// identifier is already waiting is handed back, and nothing changes.
    pub fn insert(&mut self, meta: JobMeta, state: S, now: u64) -> (r: Result<(), Job<S>>)
        requires
            old(self).wf(),
            meta.wf(),
        ensures
            final(self).wf(),
            match r {
                Ok(()) => {
                    &&& !old(self).bank().contains_key(meta.id)
                    &&& old(self).armed(*final(self), Job { meta, state }, now)
                },
                Err(job) => {
                    &&& old(self).bank().contains_key(meta.id)
                    &&& job == (Job { meta, state })
                    &&& final(self).bank() == old(self).bank()
                    &&& final(self).timer() == old(self).timer()
                },
            },
    {
        if self.bank.contains_key(&meta.id) {
            return Err(Job { meta, state });
        }
        let ghost q = self.timer.queue();
        let ghost bank0 = self.bank@;
        let fire_at: u128 = self.timer.insert(meta.id, now, meta.next_fire_in);
        self.bank.insert(meta.id, Job { meta, state });
        proof {
            let k = ripe_count(q, fire_at as int) as int;
            let entry = TimerEntry { id: meta.id, fire_at };
            let r = self.timer.queue();
            crate::timer::lemma_ripe_split(q, fire_at as int);
            q.insert_ensures(k, entry);
            assert forall|i: int| 0 <= i < r.len() implies self.bank@.contains_key(
                (#[trigger] r[i]).id,
            ) by {
                if i < k {
                    assert(r[i] == q[i]);
                } else if i > k {
                    assert(r[i] == q[i - 1]);
                }
            }
            assert forall|i: int, j: int| 0 <= i < j < r.len() implies r[i].id != r[j].id by {
                if i < k {
                    assert(r[i] == q[i]);
                } else if i > k {
                    assert(r[i] == q[i - 1]);
                }
                if j < k {
                    assert(r[j] == q[j]);
                } else if j > k {
                    assert(r[j] == q[j - 1]);
                }
            }
            assert forall|id: u128| #[trigger] self.bank@.contains_key(id) implies exists|i: int|
                0 <= i < r.len() && (#[trigger] r[i]).id == id by {
                if id == meta.id {
                    assert(r[k].id == id);
                } else {
                    assert(bank0.contains_key(id));
                    let i = choose|i: int| 0 <= i < q.len() && (#[trigger] q[i]).id == id;
                    if i < k {
                        assert(r[i].id == id);
                    } else {
                        assert(r[i + 1].id == id);
                    }
                }
            }
        }
        Ok(())
    }

    /// Moves every job whose timer entry is due at the clock reading from the
    /// bank into `reschedule_jobs`, in the order of the due times. Returns at
    /// once where nothing is due.
    pub fn release_ready(&mut self, now: u64, reschedule_jobs: &mut Vec<Job<S>>)
        requires
            old(self).wf(),
        ensures
            final(self).wf(),
            old(self).released(*final(self), now),
            final(reschedule_jobs)@ == old(reschedule_jobs)@ + old(self).due(now),
            final(self).bank().len() + old(self).due(now).len() == old(self).bank().len(),
    {
        let t: u64 = self.timer.observe(now);
        let ghost q = self.timer.queue();
        let ghost bank0 = self.bank@;
        let ghost out0 = reschedule_jobs@;
        let ghost floor0 = self.timer.last_released();
        let ghost mut j: int = 0;
        proof {
            assert(bank0.remove_keys(ids_upto(q, 0)) =~= bank0);
            assert(out0 + bank_jobs(bank0, q.take(0)) =~= out0);
            assert(q.skip(0) =~= q);
        }
        loop
            invariant
                self.timer.wf(),
                self.timer.now() == t,
                self.timer.last_released() >= floor0,
                t >= now,
                linked(bank0, q),
                0 <= j <= q.len(),
                self.timer.queue() == q.skip(j),
                forall|i: int| 0 <= i < j ==> (#[trigger] q[i]).fire_at <= t,
                self.bank@ == bank0.remove_keys(ids_upto(q, j)),
                reschedule_jobs@ == out0 + bank_jobs(bank0, q.take(j)),
            ensures
                j < q.len() ==> q[j].fire_at > t,
            decreases q.len() - j,
        {
            match self.timer.next(now) {
                Some(entry) => {
                    proof {
                        assert(entry == q.skip(j)[0]);
                        assert(entry == q[j]);
                        assert(bank0.contains_key(q[j].id));
                        assert(!ids_upto(q, j).contains(entry.id));
                    }
                    let found = self.bank.remove(&entry.id);
                    proof {
                        assert(found == Some(bank0[entry.id]));
                        assert(self.bank@ =~= bank0.remove_keys(ids_upto(q, j + 1))) by {
                            assert(ids_upto(q, j + 1) =~= ids_upto(q, j).insert(entry.id)) by {
                                assert forall|id: u128|
                                    ids_upto(q, j).insert(entry.id).contains(
                                        id,
                                    ) implies ids_upto(q, j + 1).contains(id) by {
                                    if id == entry.id {
                                        assert(q[j].id == id);
                                    } else {
                                        let i = choose|i: int|
                                            0 <= i < j && i < q.len() && (#[trigger] q[i]).id
                                                == id;
                                        assert(q[i].id == id);
                                    }
                                }
                            }
                        }
                        assert(q.skip(j).skip(1) =~= q.skip(j + 1));
                        assert(out0 + bank_jobs(bank0, q.take(j)).push(bank0[entry.id]) =~= out0
                            + bank_jobs(bank0, q.take(j + 1)));
                    }
                    match found {
                        Some(job) => {
                            reschedule_jobs.push(job);
                        },
                        None => {},
                    }
                    proof {
                        j = j + 1;
                    }
                },
                None => {
                    proof {
                        if j < q.len() {
                            assert(q.skip(j)[0] == q[j]);
                        }
                    }
                    break ;
                },
            }
        }
        proof {
            lemma_ripe_unique(q, t as int, j);
            let r = self.timer.queue();
            assert forall|i: int| 0 <= i < r.len() implies self.bank@.contains_key(
                (#[trigger] r[i]).id,
            ) by {
                assert(r[i] == q[i + j]);
                assert(bank0.contains_key(q[i + j].id));
                if ids_upto(q, j).contains(q[i + j].id) {
                    let x = choose|x: int|
                        0 <= x < j && x < q.len() && (#[trigger] q[x]).id == q[i + j].id;
                    assert(q[x].id != q[i + j].id);
                }
            }
            assert forall|a: int, b: int| 0 <= a < b < r.len() implies r[a].id != r[b].id by {
                assert(r[a] == q[a + j]);
                assert(r[b] == q[b + j]);
            }
            assert forall|id: u128| #[trigger] self.bank@.contains_key(id) implies exists|i: int|
                0 <= i < r.len() && (#[trigger] r[i]).id == id by {
                assert(bank0.contains_key(id));
                let i = choose|i: int| 0 <= i < q.len() && (#[trigger] q[i]).id == id;
                assert(!ids_upto(q, j).contains(id));
                assert(i >= j);
                assert(r[i - j].id == id);
            }
            lemma_bank_matches_timer(bank0, q);
            lemma_bank_matches_timer(self.bank@, r);
        }
    }
}

} // verus!
