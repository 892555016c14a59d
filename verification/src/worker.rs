//! The worker: it bounds the number of tasks in flight and collects what
//! they report.
//!
//! The worker runs no task itself. It says which queued items to launch,
//! takes the outcome of each launched task, and hands the collected results
//! out in the order in which they came.

use crate::boundary::Boundary;
use crate::ring::{Operation, ResultRing};
use crate::signal::{IoKind, JobErr, SignalControl};
use vstd::prelude::*;

verus! {

/// Room that the result ring has at the least.
pub const ALLOC_SIZE: usize = 16384;

/// How a launched task ended.
#[derive(Clone, Debug, PartialEq, Eq)]
pub enum TaskOutcome<R> {
    /// The job ran to its end and reported this signal.
    Finished(SignalControl<R>),
    /// The job ended with an error of its own.
    Failed,
    /// The job ran longer than it may.
    TimedOut,
}

/// The signal that the end of a task is recorded with.
pub open spec fn settled<R>(outcome: TaskOutcome<R>) -> SignalControl<R> {
    match outcome {
        TaskOutcome::Finished(signal) => signal,
        TaskOutcome::Failed => SignalControl::Error(JobErr::TaskFailed),
        TaskOutcome::TimedOut => SignalControl::Error(JobErr::IO(IoKind::TimedOut)),
    }
}

/// Records the end of a task as a signal: what the job reported, a failed
/// task, or a timeout.
pub fn settle<R>(outcome: TaskOutcome<R>) -> (signal: SignalControl<R>)
    ensures
        signal == settled(outcome),
{
    match outcome {
        TaskOutcome::Finished(signal) => signal,
        TaskOutcome::Failed => SignalControl::Error(JobErr::TaskFailed),
        TaskOutcome::TimedOut => SignalControl::Error(JobErr::IO(IoKind::TimedOut)),
    }
}

/// Room of the result ring of a worker with this bound: one slot more than
/// the bound, and [`ALLOC_SIZE`] at the least.
pub open spec fn ring_capacity(throttle: Boundary) -> int {
    match throttle {
        Boundary::Limited(n) => if n + 1 > ALLOC_SIZE {
            n + 1
        } else {
            ALLOC_SIZE as int
        },
        Boundary::Unlimited => ALLOC_SIZE as int,
    }
}

/// The number of queued items that may be launched: what the bound leaves
/// beside the tasks counted by `job_count`, and no more than are queued. An
/// unbounded worker takes all that are queued, as far as a `usize` can count
/// them together with those in flight.
pub open spec fn allowance(throttle: Boundary, job_count: int, queued: int) -> int {
    match throttle {
        Boundary::Limited(limit) => if job_count < limit {
            if queued < limit - job_count {
                queued
            } else {
                limit - job_count
            }
        } else {
            0
        },
        Boundary::Unlimited => if queued < usize::MAX - job_count {
            queued
        } else {
            usize::MAX - job_count
        },
    }
}

/// Bounds the tasks in flight and collects their results.
pub struct Worker<R, S> {
    ring: ResultRing<(SignalControl<R>, S)>,
    ttl: u64,
    throttle: Boundary,
    in_flight: usize,
}

impl<R, S> Worker<R, S> {
    /// The bound on the tasks in flight.
    pub closed spec fn throttle(&self) -> Boundary {
        self.throttle
    }

    /// Nanoseconds that one task may run.
    pub closed spec fn ttl(&self) -> u64 {
        self.ttl
    }

    /// The number of launched tasks that have not ended.
    pub closed spec fn in_flight(&self) -> nat {
        self.in_flight as nat
    }

    /// The results that were collected and not handed out, oldest first.
    pub closed spec fn pending(&self) -> Seq<(SignalControl<R>, S)> {
        self.ring.settled()
    }

    /// The live handles on the result ring: one for each task in flight and
    /// one of the worker's own.
    pub open spec fn spec_job_count(&self) -> nat {
        self.in_flight() + 1
    }

    /// The result ring is in order.
    pub closed spec fn ring_wf(&self) -> bool {
        self.ring.wf()
    }

    /// The count of handles fits a `usize`, and the tasks in flight keep
    /// within the bound.
    pub open spec fn wf(&self) -> bool {
        &&& self.ring_wf()
        &&& self.spec_job_count() <= usize::MAX
        &&& self.throttle() matches Boundary::Limited(n) ==> self.in_flight() == 0
            || self.spec_job_count() <= n
    }

    /// A bounded worker never has more tasks in flight than its bound.
    pub proof fn lemma_bound_respected(self)
        requires
            self.wf(),
        ensures
            self.throttle() matches Boundary::Limited(n) ==> self.spec_job_count() - 1 <= n,
    {
    }

    /// The room that [`Worker::new`] gives the result ring.
    pub fn capacity_for(throttle: Boundary) -> (size: usize)
        requires
            throttle matches Boundary::Limited(n) ==> n < usize::MAX,
        ensures
            size == ring_capacity(throttle),
    {
        match throttle {
            Boundary::Limited(n) => if n >= ALLOC_SIZE {
                n + 1
            } else {
                ALLOC_SIZE
            },
            Boundary::Unlimited => ALLOC_SIZE,
        }
    }

    /// A worker without tasks or results. Each task may run `ttl`
    /// nanoseconds. The bound plus one fits a `usize`.
    pub fn new(throttle: Boundary, ttl: u64) -> (worker: Self)
        requires
            throttle matches Boundary::Limited(n) ==> n < usize::MAX,
        ensures
            worker.wf(),
            worker.throttle() == throttle,
            worker.ttl() == ttl,
            worker.in_flight() == 0,
            worker.pending() == Seq::<(SignalControl<R>, S)>::empty(),
    {
        let size: usize = Self::capacity_for(throttle);
        Worker { ring: ResultRing::with_capacity(size), ttl, throttle, in_flight: 0 }
    }

    /// The bound on the tasks in flight.
    pub fn limit(&self) -> (throttle: Boundary)
        ensures
            throttle == self.throttle(),
    {
        self.throttle
    }

    /// Nanoseconds that one task may run.
    pub fn time_to_live(&self) -> (ttl: u64)
        ensures
            ttl == self.ttl(),
    {
        self.ttl
    }

    /// The live handles on the result ring; 1 when no task is in flight.
    pub fn job_count(&self) -> (count: usize)
        requires
            self.wf(),
        ensures
            count == self.spec_job_count(),
            self.throttle() matches Boundary::Limited(n) ==> count - 1 <= n,
    {
        self.in_flight + 1
    }

    /// The number of queued items that may be launched now, out of `queued`.
    pub fn spawn_allowance(&self, queued: usize) -> (count: usize)
        requires
            self.wf(),
        ensures
            count == allowance(self.throttle(), self.spec_job_count() as int, queued as int),
            count <= queued,
    {
        let limit: usize = match self.throttle {
            Boundary::Limited(limit) => limit,
            Boundary::Unlimited => usize::MAX,
        };
        if limit >= self.job_count() {
            let mut spawn_count: usize = limit - self.job_count();
            if spawn_count > queued {
                spawn_count = queued;
            }
            return spawn_count;
        }
        0
    }

    /// The number of items of `buf` that may be launched now.
    pub fn calc_new_spawns(&self, buf: &Vec<S>) -> (count: usize)
        requires
            self.wf(),
        ensures
            count == allowance(self.throttle(), self.spec_job_count() as int, buf@.len() as int),
            count <= buf@.len(),
    {
        self.spawn_allowance(buf.len())
    }

    /// Takes the first [`Worker::calc_new_spawns`] items off `buf` and counts
    /// them as in flight. The caller launches one task for each item handed
    /// out, and reports its end with [`Worker::complete`].
    pub fn fire_jobs(&mut self, buf: &mut Vec<S>) -> (launched: Vec<S>)
        requires
            old(self).wf(),
        ensures
            final(self).wf(),
            launched@.len() == allowance(
                old(self).throttle(),
                old(self).spec_job_count() as int,
                old(buf)@.len() as int,
            ),
            launched@ == old(buf)@.take(launched@.len() as int),
            final(buf)@ == old(buf)@.skip(launched@.len() as int),
            final(self).in_flight() == old(self).in_flight() + launched@.len(),
            final(self).pending() == old(self).pending(),
            final(self).throttle() == old(self).throttle(),
            final(self).ttl() == old(self).ttl(),
    {
        let new_spawn_count: usize = self.calc_new_spawns(buf);
        let mut launched: Vec<S> = Vec::new();
        if new_spawn_count > 0 {
            launched = buf.split_off(new_spawn_count);
            core::mem::swap(buf, &mut launched);
            self.in_flight = self.in_flight + new_spawn_count;
        }
        proof {
            assert(launched@ =~= old(buf)@.take(new_spawn_count as int));
            assert(buf@ =~= old(buf)@.skip(new_spawn_count as int));
        }
        launched
    }

    /// Collects the result of a task that ended: one pair of its signal and
    /// its state, behind all results collected before. With no task in
    /// flight there is nothing to end; outcome and state are handed back.
    pub fn complete(&mut self, outcome: TaskOutcome<R>, state: S) -> (r: Result<
        (),
        (TaskOutcome<R>, S),
    >)
        requires
            old(self).wf(),
        ensures
            final(self).wf(),
            final(self).throttle() == old(self).throttle(),
            final(self).ttl() == old(self).ttl(),
            match r {
                Ok(()) => {
                    &&& old(self).in_flight() > 0
                    &&& final(self).in_flight() == old(self).in_flight() - 1
                    &&& final(self).pending() == old(self).pending().push(
                        (settled(outcome), state),
                    )
                },
                Err(back) => {
                    &&& old(self).in_flight() == 0
                    &&& back == (outcome, state)
                    &&& final(self).in_flight() == 0
                    &&& final(self).pending() == old(self).pending()
                },
            },
    {
        if self.in_flight == 0 {
            return Err((outcome, state));
        }
        let signal = settle(outcome);
        self.ring.write(Operation::Push((signal, state)));
        self.in_flight = self.in_flight - 1;
        Ok(())
    }

    /// Hands out every collected result, oldest first. No result is handed
    /// out twice, and none that was collected is left behind.
    pub fn drain_results(&mut self) -> (results: Vec<(SignalControl<R>, S)>)
        requires
            old(self).wf(),
        ensures
            final(self).wf(),
            results@ == old(self).pending(),
            final(self).pending() == Seq::<(SignalControl<R>, S)>::empty(),
            final(self).in_flight() == old(self).in_flight(),
            final(self).throttle() == old(self).throttle(),
            final(self).ttl() == old(self).ttl(),
    {
        self.ring.refresh();
        self.ring.take()
    }
}

} // verus!
