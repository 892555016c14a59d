//! Per-target bookkeeping: the identity of a job and how often it was tried.

use vstd::prelude::*;

verus! {

/// The bits of an identifier that mark it as randomly drawn.
pub const ID_MARK_BITS: u128 = 0x0000_0000_0000_f000_c000_0000_0000_0000;

/// What [`ID_MARK_BITS`] hold in a randomly drawn identifier.
pub const ID_MARK: u128 = 0x0000_0000_0000_4000_8000_0000_0000_0000;

/// `id` carries the marks of a randomly drawn identifier.
pub open spec fn is_random_id(id: u128) -> bool {
    id & ID_MARK_BITS == ID_MARK
}

/// Draws an identifier with `uuid::Uuid::new_v4` and hands it out as the
/// integer that `Uuid::as_u128` gives. The value is random; trusted of it is
/// only that it carries the version and variant marks which `new_v4` sets in
/// every identifier it makes. The call fails the process where the operating
/// system cannot supply random bytes.
#[verifier::external_body]
pub(crate) fn fresh_id() -> (id: u128)
    ensures
        is_random_id(id),
{
    uuid::Uuid::new_v4().as_u128()
}

/// What the engine keeps about one job.
#[derive(Clone, Copy, Debug, PartialEq, Eq, Structural)]
pub struct JobMeta {
    /// Identifies the job.
    pub id: u128,
    /// Attempts used up so far.
    pub attempt: u32,
    /// Attempts the job may use up.
    pub max_retries: u32,
    /// Nanoseconds one attempt may run.
    pub ttl: u64,
    /// Nanoseconds to wait before the next attempt.
    pub next_fire_in: u64,
}

impl JobMeta {
    /// The attempt counter is within its bound.
    pub open spec fn wf(self) -> bool {
        self.attempt <= self.max_retries
    }

    /// The bookkeeping of a job that was never tried.
    pub open spec fn fresh(id: u128, ttl: u64, fire_in: u64, max_retries: u32) -> JobMeta {
        JobMeta { id, attempt: 0, max_retries, ttl, next_fire_in: fire_in }
    }

    /// An attempt is left.
    pub open spec fn can_retry(self) -> bool {
        self.attempt < self.max_retries
    }

    /// The bookkeeping after one more attempt was used up; the job is due at once.
    pub open spec fn retried(self) -> JobMeta {
        JobMeta { attempt: (self.attempt + 1) as u32, next_fire_in: 0, ..self }
    }

    /// The bookkeeping of a job put off by `delay` nanoseconds, with or
    /// without an attempt used up.
    pub open spec fn deferred(self, delay: u64, counted: bool) -> JobMeta {
        JobMeta {
            attempt: if counted {
                (self.attempt + 1) as u32
            } else {
                self.attempt
            },
            next_fire_in: delay,
            ..self
        }
    }

    /// Bookkeeping for a job that was never tried.
    pub fn new(id: u128, ttl: u64, fire_in: u64, max_retries: u32) -> (meta: JobMeta)
        ensures
            meta == JobMeta::fresh(id, ttl, fire_in, max_retries),
            meta.wf(),
    {
        JobMeta { id, attempt: 0, max_retries, ttl, next_fire_in: fire_in }
    }

    /// Whether an attempt is left.
    pub fn attempts_remain(&self) -> (left: bool)
        ensures
            left == self.can_retry(),
    {
        self.attempt < self.max_retries
    }

    /// Uses up one attempt and makes the job due at once.
    pub fn retry(self) -> (meta: JobMeta)
        requires
            self.can_retry(),
        ensures
            meta == self.retried(),
            meta.wf(),
    {
        JobMeta { attempt: self.attempt + 1, next_fire_in: 0, ..self }
    }

    /// Puts the job off by `delay` nanoseconds; `counted` says whether that
    /// uses up an attempt.
    pub fn defer(self, delay: u64, counted: bool) -> (meta: JobMeta)
        requires
            self.can_retry(),
        ensures
            meta == self.deferred(delay, counted),
            meta.wf(),
    {
        let attempt: u32 = if counted {
            self.attempt + 1
        } else {
            self.attempt
        };
        JobMeta { attempt, next_fire_in: delay, ..self }
    }
}

/// A target together with its bookkeeping.
#[derive(Clone, Debug, PartialEq, Eq)]
pub struct Job<S> {
    pub meta: JobMeta,
    pub state: S,
}

/// Whether `id` carries the marks of a randomly drawn identifier.
pub fn has_random_marks(id: u128) -> (marked: bool)
    ensures
        marked == is_random_id(id),
{
    id & ID_MARK_BITS == ID_MARK
}

} // verus!
