//! Admission bookkeeping of the bounded callback worker pool.
//!
//! The pool's threads and channel live with the caller; this module decides
//! whether a job is admitted, keeps the waiting-job and rejection counters,
//! and maps a refused hand-off to the error the submitter sees.
use vstd::prelude::*;

verus! {

/// Default number of waiting jobs (running jobs do not count toward this limit).
pub const DEFAULT_QUEUE_CAPACITY: usize = 1024;

/// Why a job was not accepted.
#[derive(Debug, Clone, Copy, PartialEq, Eq, Structural)]
pub enum SubmitError {
    /// The waiting queue is at its limit.
    Full,
    /// The pool no longer accepts work.
    Closed,
}

impl SubmitError {
    /// Human-readable text of the error.
    pub fn message(self) -> (r: &'static str)
        ensures
            self == SubmitError::Full ==> r@ == "callback queue is full"@,
            self == SubmitError::Closed ==> r@ == "worker pool is closed"@,
    {
        proof {
            reveal_strlit("callback queue is full");
            reveal_strlit("worker pool is closed");
        }
        match self {
            SubmitError::Full => "callback queue is full",
            SubmitError::Closed => "worker pool is closed",
        }
    }
}

/// Snapshot of a callback queue. Counters are local to one pool or group.
#[derive(Debug, Clone, Copy, PartialEq, Eq, Structural)]
pub struct QueueStats {
    /// Total slots, including the pool's internal continuation reserve.
    pub capacity: usize,
    pub pending: usize,
    pub rejected: u64,
}

/// How the pool's channel refused a job.
#[derive(Debug, Clone, Copy, PartialEq, Eq, Structural)]
pub enum SendRefusal {
    /// Every channel slot is taken.
    Full,
    /// The receiving side is gone.
    Disconnected,
}

/// Sizes derived from the requested worker count and queue limit.
#[derive(Debug, Clone, Copy, PartialEq, Eq, Structural)]
pub struct PoolSizes {
    /// Number of worker threads (at least one).
    pub workers: usize,
    /// Waiting jobs admitted from outside (at least one).
    pub admission_limit: usize,
    /// Channel slots: the admission limit plus one continuation slot per worker,
    /// saturated at `usize::MAX`.
    pub capacity: usize,
}

/// `max(1, n)`.
pub open spec fn at_least_one(n: usize) -> usize {
    if n == 0 { 1 } else { n }
}

/// Sizes of a pool asked for `max_workers` threads and `queue_capacity` waiting jobs.
pub fn pool_sizes(max_workers: usize, queue_capacity: usize) -> (s: PoolSizes)
    ensures
        s.workers == at_least_one(max_workers),
        s.admission_limit == at_least_one(queue_capacity),
        s.capacity == (if s.admission_limit + s.workers > usize::MAX {
            usize::MAX as int
        } else {
            s.admission_limit + s.workers
        }),
{
    let workers = if max_workers == 0 { 1 } else { max_workers };
    let admission_limit = if queue_capacity == 0 { 1 } else { queue_capacity };
    let capacity = admission_limit.saturating_add(workers);
    PoolSizes { workers, admission_limit, capacity }
}

/// Waiting-job and rejection counters of one pool.
pub struct PoolCounters {
    capacity: usize,
    admission_limit: usize,
    pending: usize,
    rejected: u64,
}

impl PoolCounters {
    pub closed spec fn spec_capacity(&self) -> usize {
        self.capacity
    }

    pub closed spec fn spec_admission_limit(&self) -> usize {
        self.admission_limit
    }

    pub closed spec fn spec_pending(&self) -> usize {
        self.pending
    }

    pub closed spec fn spec_rejected(&self) -> u64 {
        self.rejected
    }

    /// Fresh counters for a pool of the given sizes.
    pub fn new(sizes: PoolSizes) -> (c: Self)
        ensures
            c.spec_capacity() == sizes.capacity,
            c.spec_admission_limit() == sizes.admission_limit,
            c.spec_pending() == 0,
            c.spec_rejected() == 0,
    {
        PoolCounters {
            capacity: sizes.capacity,
            admission_limit: sizes.admission_limit,
            pending: 0,
            rejected: 0,
        }
    }

    /// Current counters.
    pub fn queue_stats(&self) -> (s: QueueStats)
        ensures
            s.capacity == self.spec_capacity(),
            s.pending == self.spec_pending(),
            s.rejected == self.spec_rejected(),
    {
        QueueStats { capacity: self.capacity, pending: self.pending, rejected: self.rejected }
    }

    /// Decide whether a job may be handed to the channel and count it as waiting.
    ///
    /// An outside job is refused (and counted as rejected) once the waiting
    /// count reaches the admission limit; a continuation of a running group is
    /// never refused here.
    pub fn accept(&mut self, continuation: bool) -> (admitted: bool)
        requires
            old(self).spec_pending() < usize::MAX,
            old(self).spec_rejected() < u64::MAX,
        ensures
            admitted == (continuation || old(self).spec_pending() < old(self).spec_admission_limit()),
            admitted ==> final(self).spec_pending() == old(self).spec_pending() + 1,
            admitted ==> final(self).spec_rejected() == old(self).spec_rejected(),
            !admitted ==> final(self).spec_pending() == old(self).spec_pending(),
            !admitted ==> final(self).spec_rejected() == old(self).spec_rejected() + 1,
            final(self).spec_capacity() == old(self).spec_capacity(),
            final(self).spec_admission_limit() == old(self).spec_admission_limit(),
    {
        if !continuation && self.pending >= self.admission_limit {
            self.rejected = self.rejected + 1;
            false
        } else {
            self.pending = self.pending + 1;
            true
        }
    }

    /// Undo an admission whose hand-off the channel refused, and name the error.
    pub fn refused(&mut self, continuation: bool, why: SendRefusal) -> (e: SubmitError)
        requires
            old(self).spec_pending() > 0,
            old(self).spec_rejected() < u64::MAX,
        ensures
            e == (match why {
                SendRefusal::Full => SubmitError::Full,
                SendRefusal::Disconnected => SubmitError::Closed,
            }),
            final(self).spec_pending() == old(self).spec_pending() - 1,
            final(self).spec_rejected() == old(self).spec_rejected() + (if continuation {
                0int
            } else {
                1int
            }),
            final(self).spec_capacity() == old(self).spec_capacity(),
            final(self).spec_admission_limit() == old(self).spec_admission_limit(),
    {
        self.pending = self.pending - 1;
        if !continuation {
            self.rejected = self.rejected + 1;
        }
        match why {
            SendRefusal::Full => SubmitError::Full,
            SendRefusal::Disconnected => SubmitError::Closed,
        }
    }

    /// A worker took a job off the channel: it no longer waits.
    pub fn job_started(&mut self)
        requires
            old(self).spec_pending() > 0,
        ensures
            final(self).spec_pending() == old(self).spec_pending() - 1,
            final(self).spec_rejected() == old(self).spec_rejected(),
            final(self).spec_capacity() == old(self).spec_capacity(),
            final(self).spec_admission_limit() == old(self).spec_admission_limit(),
    {
        self.pending = self.pending - 1;
    }
}

} // verus!
