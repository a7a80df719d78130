//! Tunables of the download pipeline, passed explicitly into the scheduler
//! and the fetch state machine rather than read from process-wide constants.

use vstd::prelude::*;

verus! {

/// Configuration consumed by the pipeline core.
///
/// Timeouts are per operation (one connect attempt, one chunk read), not an
/// end-to-end deadline per item.  The backoff seed is drawn per item from
/// `[backoff_seed_min, backoff_seed_max)` so that concurrently started
/// fetches do not retry in lockstep.  The connect-retry loop and the
/// redirect recursion are both capped here (`max_connect_attempts`,
/// `max_redirect_hops`); past either cap the item fails terminally instead
/// of retrying forever.
#[derive(Clone, Copy, PartialEq, Eq, Structural, Debug)]
pub struct Config {
    /// Hard timeout for one connect attempt, in milliseconds.
    pub connect_timeout_ms: u64,
    /// Hard timeout for one chunk read, in milliseconds.
    pub chunk_timeout_ms: u64,
    /// Every this-many-th stall tick emits a retry warning.
    pub stall_warn_every: u8,
    /// Every this-many-th stall tick abandons the transfer.
    pub stall_abandon_every: u8,
    /// Lower bound (inclusive) of the randomized initial backoff delay.
    pub backoff_seed_min: u64,
    /// Upper bound (exclusive) of the randomized initial backoff delay.
    pub backoff_seed_max: u64,
    /// Capacity of the bounded hand-off queue between selector and scheduler.
    pub queue_capacity: usize,
    /// Ceiling on simultaneously in-flight fetches (bounded-pool discipline).
    pub concurrency_cap: usize,
    /// Give up on an item after this many connect attempts have timed out.
    pub max_connect_attempts: u64,
    /// Give up on an item after this many redirect hops.
    pub max_redirect_hops: u64,
    /// When set, no network or file operation happens; the scheduler only
    /// records each item's resolved target path.
    pub dry_run: bool,
}

impl Config {
    /// The bounds a configuration must satisfy for the pipeline to make
    /// sense: nonzero stall thresholds (they are used as moduli), a
    /// nonempty seed range, room in the queue and the pool, and at least
    /// one allowed connect attempt.
    pub open spec fn wf(self) -> bool {
        &&& 0 < self.stall_warn_every
        &&& 0 < self.stall_abandon_every
        &&& self.backoff_seed_min < self.backoff_seed_max
        &&& 0 < self.queue_capacity
        &&& 0 < self.concurrency_cap
        &&& 0 < self.max_connect_attempts
    }

    /// Whether this value is well formed, decided at run time.
    pub fn check(&self) -> (r: bool)
        ensures
            r == self.wf(),
    {
        0 < self.stall_warn_every && 0 < self.stall_abandon_every
            && self.backoff_seed_min < self.backoff_seed_max && 0 < self.queue_capacity
            && 0 < self.concurrency_cap && 0 < self.max_connect_attempts
    }
}

impl Default for Config {
    /// The default operating point: 3000 ms connect timeout, 5000 ms chunk
    /// timeout, a warning every 20th stall and abandonment at the 60th,
    /// backoff seeds in `[3000, 4500)`, a queue of depth 10 and a pool of
    /// 20 workers.
    fn default() -> (r: Self)
        ensures
            r.wf(),
            r.connect_timeout_ms == 3000,
            r.chunk_timeout_ms == 5000,
            r.stall_warn_every == 20,
            r.stall_abandon_every == 60,
            r.backoff_seed_min == 3000,
            r.backoff_seed_max == 4500,
            r.queue_capacity == 10,
            r.concurrency_cap == 20,
            r.max_connect_attempts == 16,
            r.max_redirect_hops == 8,
            !r.dry_run,
    {
        Config {
            connect_timeout_ms: 3000,
            chunk_timeout_ms: 5000,
            stall_warn_every: 20,
            stall_abandon_every: 60,
            backoff_seed_min: 3000,
            backoff_seed_max: 4500,
            queue_capacity: 10,
            concurrency_cap: 20,
            max_connect_attempts: 16,
            max_redirect_hops: 8,
            dry_run: false,
        }
    }
}

} // verus!
