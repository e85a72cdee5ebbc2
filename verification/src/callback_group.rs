//! ROS 2–style callback groups: mutually exclusive vs reentrant.
//!
//! A mutually exclusive group keeps at most one job in flight on the worker
//! pool; further jobs wait, first in first out, in a bounded per-group queue.
//! This module holds the group's state and every decision about it; the job
//! values themselves (`J`) are opaque to it, and the caller supplies the hand-off
//! to the pool.
use vstd::prelude::*;
use std::collections::VecDeque;
use crate::worker_pool::{DEFAULT_QUEUE_CAPACITY, QueueStats, SubmitError};

verus! {

/// How callbacks in a [`CallbackGroup`] may overlap (ROS 2).
#[derive(Debug, Clone, Copy, PartialEq, Eq, Structural)]
pub enum CallbackGroupType {
    /// At most one callback from this group runs at a time.
    MutuallyExclusive,
    /// Callbacks from this group may run concurrently (with a multi-threaded executor).
    Reentrant,
}

/// Where a job submitted to a group goes.
#[derive(Debug, Clone, Copy, PartialEq, Eq, Structural)]
pub enum JobRoute {
    /// Through the group's own queue and a single runner on the pool.
    Exclusive,
    /// Straight onto the worker pool.
    Pool,
    /// Run on the calling (poll / I/O) thread.
    Inline,
}

/// Mathematical state of a group.
pub struct GroupState<J> {
    pub id: u64,
    pub kind: CallbackGroupType,
    pub running: bool,
    pub pending: Seq<J>,
    pub capacity: nat,
    pub rejected: nat,
}

/// The group invariant: a positive limit that the queue respects, and no
/// waiting job while no runner is in flight.
pub open spec fn group_wf<J>(s: GroupState<J>) -> bool {
    &&& s.capacity >= 1
    &&& s.pending.len() <= s.capacity
    &&& !s.running ==> s.pending.len() == 0
}

/// Outcome of offering `job` to a group whose runner is already in flight.
pub open spec fn spec_enqueue<J>(s: GroupState<J>, job: J) -> (GroupState<J>, Result<(), SubmitError>) {
    if s.pending.len() >= s.capacity {
        (GroupState { rejected: s.rejected + 1, ..s }, Err(SubmitError::Full))
    } else {
        (GroupState { pending: s.pending.push(job), ..s }, Ok(()))
    }
}

/// State after the pool answered `r` to the hand-off of a new runner.
pub open spec fn spec_runner_answer<J>(s: GroupState<J>, r: Result<(), SubmitError>) -> GroupState<J> {
    match r {
        Ok(()) => GroupState { running: true, ..s },
        Err(_) => GroupState { running: false, rejected: s.rejected + 1, ..s },
    }
}

/// State after the runner finished a job: it stays in flight only while jobs wait.
pub open spec fn spec_after_job<J>(s: GroupState<J>) -> GroupState<J> {
    if s.pending.len() == 0 {
        GroupState { running: false, ..s }
    } else {
        s
    }
}

/// State after the runner took the next waiting job.
pub open spec fn spec_take_next<J>(s: GroupState<J>) -> GroupState<J> {
    if s.pending.len() == 0 {
        s
    } else {
        GroupState { pending: s.pending.drop_first(), ..s }
    }
}

/// Route of a job for a group of `kind`, with or without a worker pool.
pub open spec fn spec_route(kind: CallbackGroupType, has_pool: bool) -> JobRoute {
    if !has_pool {
        JobRoute::Inline
    } else {
        match kind {
            CallbackGroupType::MutuallyExclusive => JobRoute::Exclusive,
            CallbackGroupType::Reentrant => JobRoute::Pool,
        }
    }
}

/// Groups callbacks for concurrency control (ROS 2 `CallbackGroup`).
///
/// A group keeps the id it was made with; [`GroupIds`] hands out distinct ones.
pub struct CallbackGroup<J> {
    id: u64,
    kind: CallbackGroupType,
    running: bool,
    pending: VecDeque<J>,
    capacity: usize,
    rejected: u64,
}

impl<J> View for CallbackGroup<J> {
    type V = GroupState<J>;

    closed spec fn view(&self) -> GroupState<J> {
        GroupState {
            id: self.id,
            kind: self.kind,
            running: self.running,
            pending: self.pending@,
            capacity: self.capacity as nat,
            rejected: self.rejected as nat,
        }
    }
}

impl<J> CallbackGroup<J> {
    /// The group invariant holds and the counters can still grow.
    pub open spec fn wf(&self) -> bool {
        group_wf(self@)
    }

    /// A group with the default waiting-job limit.
    pub fn new(id: u64, kind: CallbackGroupType) -> (g: Self)
        ensures
            g.wf(),
            g@ == (GroupState::<J> {
                id,
                kind,
                running: false,
                pending: Seq::empty(),
                capacity: DEFAULT_QUEUE_CAPACITY as nat,
                rejected: 0,
            }),
    {
        Self::with_queue_capacity(id, kind, DEFAULT_QUEUE_CAPACITY)
    }

    /// Set the mutually exclusive group's waiting-job limit (at least one).
    /// Reentrant groups use the worker pool's queue limit instead.
    pub fn with_queue_capacity(id: u64, kind: CallbackGroupType, capacity: usize) -> (g: Self)
        ensures
            g.wf(),
            g@ == (GroupState::<J> {
                id,
                kind,
                running: false,
                pending: Seq::empty(),
                capacity: (if capacity == 0 { 1 } else { capacity }) as nat,
                rejected: 0,
            }),
    {
        CallbackGroup {
            id,
            kind,
            running: false,
            pending: VecDeque::new(),
            capacity: if capacity == 0 { 1 } else { capacity },
            rejected: 0,
        }
    }

    /// A mutually exclusive group with the default limit.
    pub fn mutually_exclusive(id: u64) -> (g: Self)
        ensures
            g.wf(),
            g@ == (GroupState::<J> {
                id,
                kind: CallbackGroupType::MutuallyExclusive,
                running: false,
                pending: Seq::empty(),
                capacity: DEFAULT_QUEUE_CAPACITY as nat,
                rejected: 0,
            }),
    {
        Self::new(id, CallbackGroupType::MutuallyExclusive)
    }

    /// A reentrant group with the default limit.
    pub fn reentrant(id: u64) -> (g: Self)
        ensures
            g.wf(),
            g@ == (GroupState::<J> {
                id,
                kind: CallbackGroupType::Reentrant,
                running: false,
                pending: Seq::empty(),
                capacity: DEFAULT_QUEUE_CAPACITY as nat,
                rejected: 0,
            }),
    {
        Self::new(id, CallbackGroupType::Reentrant)
    }

    pub fn id(&self) -> (r: u64)
        ensures
            r == self@.id,
    {
        self.id
    }

    pub fn kind(&self) -> (r: CallbackGroupType)
        ensures
            r == self@.kind,
    {
        self.kind
    }

    /// Whether a runner of this group is in flight.
    pub fn is_running(&self) -> (r: bool)
        ensures
            r == self@.running,
    {
        self.running
    }

    /// Local waiting queue statistics (reentrant work lives in the pool).
    pub fn queue_stats(&self) -> (s: QueueStats)
        ensures
            s.capacity == self@.capacity,
            s.pending == self@.pending.len(),
            s.rejected == self@.rejected,
    {
        QueueStats { capacity: self.capacity, pending: self.pending.len(), rejected: self.rejected }
    }

    /// Where a job for this group goes, given whether a worker pool is present.
    pub fn route(&self, has_pool: bool) -> (r: JobRoute)
        ensures
            r == spec_route(self@.kind, has_pool),
    {
        if !has_pool {
            JobRoute::Inline
        } else {
            match self.kind {
                CallbackGroupType::MutuallyExclusive => JobRoute::Exclusive,
                CallbackGroupType::Reentrant => JobRoute::Pool,
            }
        }
    }

    /// Submit `job` to a mutually exclusive group.
    ///
    /// With a runner in flight the job waits (or is refused as `Full` when the
    /// queue is at its limit). Otherwise the group hands `job` to
    /// `start_runner`, which puts a runner for it on the pool; the group is in
    /// flight exactly when that hand-off succeeded, and a refused hand-off
    /// counts as a rejection.
    pub fn submit_exclusive<F>(&mut self, job: J, start_runner: F) -> (r: Result<(), SubmitError>)
        where
            F: FnOnce(J) -> Result<(), SubmitError>,
        requires
            old(self).wf(),
            old(self)@.rejected < u64::MAX,
            start_runner.requires((job,)),
        ensures
            final(self).wf(),
            old(self)@.running ==> (final(self)@, r) == spec_enqueue(old(self)@, job),
            !old(self)@.running ==> {
                &&& start_runner.ensures((job,), r)
                &&& final(self)@ == spec_runner_answer(old(self)@, r)
            },
    {
        if self.running {
            if self.pending.len() >= self.capacity {
                self.rejected = self.rejected + 1;
                return Err(SubmitError::Full);
            }
            self.pending.push_back(job);
            return Ok(());
        }
        self.running = true;
        let result = start_runner(job);
        if result.is_err() {
            self.running = false;
            self.rejected = self.rejected + 1;
        }
        result
    }

    /// The runner finished its job. Returns whether jobs still wait; when none
    /// does, the group leaves the in-flight state.
    pub fn finish_job(&mut self) -> (more: bool)
        requires
            old(self).wf(),
        ensures
            final(self).wf(),
            more == (old(self)@.pending.len() > 0),
            final(self)@ == spec_after_job(old(self)@),
    {
        if self.pending.len() == 0 {
            self.running = false;
            false
        } else {
            true
        }
    }

    /// The oldest waiting job, taken off the queue.
    pub fn take_next(&mut self) -> (next: Option<J>)
        requires
            old(self).wf(),
        ensures
            final(self).wf(),
            final(self)@ == spec_take_next(old(self)@),
            old(self)@.pending.len() == 0 ==> next is None,
            old(self)@.pending.len() > 0 ==> next == Some(old(self)@.pending[0]),
    {
        let next = self.pending.pop_front();
        proof {
            if old(self)@.pending.len() > 0 {
                assert(self@.pending =~= old(self)@.pending.drop_first());
            }
        }
        next
    }
}

/// Hands out callback-group ids, counting up from 1: each id once.
pub struct GroupIds {
    next: u64,
    issued: Ghost<Set<u64>>,
}

impl GroupIds {
    /// The id the next group gets.
    pub closed spec fn spec_next(&self) -> u64 {
        self.next
    }

    /// Every id handed out so far.
    pub closed spec fn issued(&self) -> Set<u64> {
        self.issued@
    }

    /// Every id handed out lies below the next one.
    pub closed spec fn wf(&self) -> bool {
        &&& self.next >= 1
        &&& forall|i: u64| #[trigger] self.issued@.contains(i) ==> 1 <= i < self.next
    }

    /// No id handed out yet; the first is 1.
    pub fn new() -> (ids: Self)
        ensures
            ids.wf(),
            ids.spec_next() == 1,
            ids.issued() == Set::<u64>::empty(),
    {
        GroupIds { next: 1, issued: Ghost(Set::empty()) }
    }

    /// The id the next group gets.
    pub fn next_id(&self) -> (r: u64)
        ensures
            r == self.spec_next(),
    {
        self.next
    }

    /// A new group of `kind` (default waiting-job limit) under an id that no
    /// earlier group got.
    pub fn create_group<J>(&mut self, kind: CallbackGroupType) -> (g: CallbackGroup<J>)
        requires
            old(self).wf(),
            old(self).spec_next() < u64::MAX,
        ensures
            final(self).wf(),
            g.wf(),
            g@ == (GroupState::<J> {
                id: old(self).spec_next(),
                kind,
                running: false,
                pending: Seq::empty(),
                capacity: DEFAULT_QUEUE_CAPACITY as nat,
                rejected: 0,
            }),
            !old(self).issued().contains(g@.id),
            final(self).issued() == old(self).issued().insert(g@.id),
            final(self).spec_next() == old(self).spec_next() + 1,
    {
        let id = self.next;
        self.next = self.next + 1;
        self.issued = Ghost(self.issued@.insert(id));
        CallbackGroup::new(id, kind)
    }

    /// A new group of `kind` with waiting-job limit `capacity` (at least one)
    /// under an id that no earlier group got.
    pub fn create_group_with_capacity<J>(&mut self, kind: CallbackGroupType, capacity: usize) -> (g: CallbackGroup<J>)
        requires
            old(self).wf(),
            old(self).spec_next() < u64::MAX,
        ensures
            final(self).wf(),
            g.wf(),
            g@ == (GroupState::<J> {
                id: old(self).spec_next(),
                kind,
                running: false,
                pending: Seq::empty(),
                capacity: (if capacity == 0 { 1 } else { capacity }) as nat,
                rejected: 0,
            }),
            !old(self).issued().contains(g@.id),
            final(self).issued() == old(self).issued().insert(g@.id),
            final(self).spec_next() == old(self).spec_next() + 1,
    {
        let id = self.next;
        self.next = self.next + 1;
        self.issued = Ghost(self.issued@.insert(id));
        CallbackGroup::with_queue_capacity(id, kind, capacity)
    }
}

/// Groups made one after another by the same id source have different ids,
/// however many groups were made before them.
pub proof fn law_group_ids_distinct(issued: Set<u64>, first: u64, second: u64)
    requires
        !issued.contains(first),
        !issued.insert(first).contains(second),
    ensures
        first != second,
{
}

/// Topic subscription entry: user callback and its callback group.
pub struct SubscriptionCallback<F, G> {
    pub id: u64,
    /// Identity of `callback`: entries that share one callback share one key.
    pub key: u64,
    pub callback: F,
    pub group: G,
}

/// Every step of a group keeps its invariant: the waiting queue never exceeds
/// its limit, and an idle group has no waiting job.
pub proof fn law_group_invariant_preserved<J>(s: GroupState<J>, job: J, r: Result<(), SubmitError>)
    requires
        group_wf(s),
    ensures
        s.running ==> group_wf(spec_enqueue(s, job).0),
        !s.running ==> group_wf(spec_runner_answer(s, r)),
        group_wf(spec_after_job(s)),
        group_wf(spec_take_next(s)),
{
}

/// A full group refuses new work without touching its queue.
pub proof fn law_full_group_refuses<J>(s: GroupState<J>, job: J)
    requires
        group_wf(s),
        s.running,
        s.pending.len() == s.capacity,
    ensures
        spec_enqueue(s, job).1 == Err::<(), SubmitError>(SubmitError::Full),
        spec_enqueue(s, job).0.pending == s.pending,
        spec_enqueue(s, job).0.rejected == s.rejected + 1,
{
}

/// Waiting jobs leave in the order they arrived: two jobs accepted one after
/// the other by a busy group are taken back in that order.
pub proof fn law_group_fifo<J>(s: GroupState<J>, a: J, b: J)
    requires
        group_wf(s),
        s.running,
        s.pending.len() == 0,
        s.capacity >= 2,
    ensures
        ({
            let s1 = spec_enqueue(s, a).0;
            let s2 = spec_enqueue(s1, b).0;
            let s3 = spec_take_next(s2);
            &&& spec_enqueue(s, a).1 == Ok::<(), SubmitError>(())
            &&& spec_enqueue(s1, b).1 == Ok::<(), SubmitError>(())
            &&& s2.pending[0] == a
            &&& s3.pending[0] == b
            &&& spec_take_next(s3).pending.len() == 0
        }),
{
    let s1 = spec_enqueue(s, a).0;
    let s2 = spec_enqueue(s1, b).0;
    assert(s2.pending =~= seq![a, b]);
    assert(spec_take_next(s2).pending =~= seq![b]);
}

/// A busy group after it was offered `jobs`, one after another.
pub open spec fn spec_enqueue_all<J>(s: GroupState<J>, jobs: Seq<J>) -> GroupState<J>
    decreases jobs.len(),
{
    if jobs.len() == 0 {
        s
    } else {
        spec_enqueue(spec_enqueue_all(s, jobs.drop_last()), jobs.last()).0
    }
}

/// The group after its runner took `n` waiting jobs, and those jobs in the
/// order it took them.
pub open spec fn spec_take_n<J>(s: GroupState<J>, n: nat) -> (GroupState<J>, Seq<J>)
    decreases n,
{
    if n == 0 {
        (s, Seq::empty())
    } else {
        let (t, got) = spec_take_n(s, (n - 1) as nat);
        (spec_take_next(t), got.push(t.pending[0]))
    }
}

proof fn lemma_enqueue_all<J>(s: GroupState<J>, jobs: Seq<J>)
    requires
        s.pending.len() + jobs.len() <= s.capacity,
    ensures
        spec_enqueue_all(s, jobs) == (GroupState { pending: s.pending + jobs, ..s }),
        forall|i: int| 0 <= i < jobs.len() ==> (#[trigger] spec_enqueue(spec_enqueue_all(s, jobs.take(i)), jobs[i])).1
            == Ok::<(), SubmitError>(()),
    decreases jobs.len(),
{
    if jobs.len() > 0 {
        let init = jobs.drop_last();
        lemma_enqueue_all(s, init);
        assert(s.pending + init + seq![jobs.last()] =~= s.pending + jobs);
        assert(s.pending + init.push(jobs.last()) =~= s.pending + jobs);
        assert forall|i: int| 0 <= i < jobs.len() implies (#[trigger] spec_enqueue(
            spec_enqueue_all(s, jobs.take(i)),
            jobs[i],
        )).1 == Ok::<(), SubmitError>(()) by {
            if i < init.len() {
                assert(jobs.take(i) =~= init.take(i));
                assert(jobs[i] == init[i]);
            } else {
                assert(jobs.take(i) =~= init);
            }
        }
    } else {
        assert(s.pending + jobs =~= s.pending);
    }
}

proof fn lemma_take_n<J>(s: GroupState<J>, n: nat)
    requires
        n <= s.pending.len(),
    ensures
        spec_take_n(s, n).1 == s.pending.take(n as int),
        spec_take_n(s, n).0 == (GroupState { pending: s.pending.skip(n as int), ..s }),
    decreases n,
{
    if n == 0 {
        assert(s.pending.skip(0) =~= s.pending);
        assert(s.pending.take(0) =~= Seq::<J>::empty());
    } else {
        lemma_take_n(s, (n - 1) as nat);
        let t = spec_take_n(s, (n - 1) as nat).0;
        assert(t.pending[0] == s.pending[n - 1]);
        assert(s.pending.take(n - 1).push(s.pending[n - 1]) =~= s.pending.take(n as int));
        assert(t.pending.drop_first() =~= s.pending.skip(n as int));
    }
}

/// Waiting jobs leave in the order they arrived, each once: every job of
/// `jobs` offered to a busy group with room for them is accepted, and the
/// runner then takes exactly the jobs that waited before, followed by `jobs`,
/// in that order, leaving the queue empty.
pub proof fn law_group_fifo_n<J>(s: GroupState<J>, jobs: Seq<J>)
    requires
        group_wf(s),
        s.running,
        s.pending.len() + jobs.len() <= s.capacity,
    ensures
        forall|i: int| 0 <= i < jobs.len() ==> (#[trigger] spec_enqueue(spec_enqueue_all(s, jobs.take(i)), jobs[i])).1
            == Ok::<(), SubmitError>(()),
        ({
            let e = spec_enqueue_all(s, jobs);
            let (t, got) = spec_take_n(e, e.pending.len());
            &&& got == s.pending + jobs
            &&& t.pending.len() == 0
            &&& group_wf(t)
            &&& t.running
        }),
{
    lemma_enqueue_all(s, jobs);
    let e = spec_enqueue_all(s, jobs);
    lemma_take_n(e, e.pending.len());
    assert(e.pending.take(e.pending.len() as int) =~= e.pending);
}

/// An idle group starts a runner for the first job, and the group is in
/// flight exactly when the pool took that runner.
pub proof fn law_idle_group_starts_runner<J>(s: GroupState<J>, r: Result<(), SubmitError>)
    requires
        group_wf(s),
        !s.running,
    ensures
        spec_runner_answer(s, r).running == (r is Ok),
        spec_runner_answer(s, r).pending.len() == 0,
{
}

} // verus!
