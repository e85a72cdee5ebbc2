use robot_bus::callback_group::{CallbackGroup, CallbackGroupType, GroupIds, JobRoute};
use robot_bus::worker_pool::{pool_sizes, PoolCounters, SubmitError, DEFAULT_QUEUE_CAPACITY};

/// A pool of `workers` threads whose channel is modelled by a queue of labels.
struct Pool {
    counters: PoolCounters,
    channel: Vec<&'static str>,
    open: bool,
}

impl Pool {
    fn new(workers: usize, queue: usize) -> Self {
        Pool { counters: PoolCounters::new(pool_sizes(workers, queue)), channel: Vec::new(), open: true }
    }

    fn submit(&mut self, label: &'static str, continuation: bool) -> Result<(), SubmitError> {
        if !self.counters.accept(continuation) {
            return Err(SubmitError::Full);
        }
        if !self.open {
            return Err(self.counters.refused(continuation, robot_bus::worker_pool::SendRefusal::Disconnected));
        }
        self.channel.push(label);
        Ok(())
    }

    /// A worker takes the next job off the channel.
    fn start_next(&mut self) -> Option<&'static str> {
        if self.channel.is_empty() {
            return None;
        }
        self.counters.job_started();
        Some(self.channel.remove(0))
    }
}

#[test]
fn exclusive_pending_queue_is_bounded() {
    let mut pool = Pool::new(1, DEFAULT_QUEUE_CAPACITY);
    let mut group = CallbackGroup::with_queue_capacity(1, CallbackGroupType::MutuallyExclusive, 1);
    assert_eq!(group.route(true), JobRoute::Exclusive);
    assert_eq!(group.submit_exclusive("first", |job| pool.submit(job, false)), Ok(()));
    assert_eq!(pool.start_next(), Some("first"));
    assert_eq!(group.submit_exclusive("done", |_| panic!("runner already in flight")), Ok(()));
    let rejected = group.submit_exclusive("must not execute", |_| panic!("runner already in flight"));
    let stats = group.queue_stats();
    assert_eq!(rejected, Err(SubmitError::Full));
    assert_eq!(stats.pending, 1);
    assert_eq!(stats.rejected, 1);
    assert!(group.finish_job());
    assert_eq!(group.take_next(), Some("done"));
    assert!(!group.finish_job());
    assert_eq!(group.queue_stats().pending, 0);
}

#[test]
fn full_pool_does_not_leave_group_running() {
    let mut pool = Pool::new(1, 1);
    assert_eq!(pool.submit("busy", false), Ok(()));
    assert_eq!(pool.start_next(), Some("busy"));
    assert_eq!(pool.submit("drained", false), Ok(()));
    let mut group = CallbackGroup::mutually_exclusive(2);
    let rejected = group.submit_exclusive("must not execute", |job| pool.submit(job, false));
    assert_eq!(rejected, Err(SubmitError::Full));
    assert!(!group.is_running());
    assert_eq!(group.queue_stats().rejected, 1);
    assert_eq!(pool.start_next(), Some("drained"));
    assert_eq!(group.submit_exclusive("done", |job| pool.submit(job, false)), Ok(()));
    assert!(group.is_running());
    assert_eq!(pool.start_next(), Some("done"));
}

#[test]
fn panic_releases_exclusive_group_and_preserves_queued_work() {
    let mut pool = Pool::new(1, DEFAULT_QUEUE_CAPACITY);
    let mut group = CallbackGroup::mutually_exclusive(3);
    assert_eq!(group.submit_exclusive("panics", |job| pool.submit(job, false)), Ok(()));
    assert_eq!(pool.start_next(), Some("panics"));
    assert_eq!(group.submit_exclusive("next", |_| panic!("runner already in flight")), Ok(()));
    // The runner survives the panicking callback and goes on with the group.
    assert!(group.finish_job());
    assert_eq!(group.take_next(), Some("next"));
    assert!(!group.finish_job());
    assert!(!group.is_running());
    assert_eq!(group.submit_exclusive("later", |job| pool.submit(job, false)), Ok(()));
    assert_eq!(pool.start_next(), Some("later"));
}

#[test]
fn busy_group_yields_even_when_external_pool_queue_is_full() {
    let mut pool = Pool::new(1, 1);
    let mut first = CallbackGroup::mutually_exclusive(4);
    let mut second = CallbackGroup::mutually_exclusive(5);
    assert_eq!(first.submit_exclusive("first-group", |job| pool.submit(job, false)), Ok(()));
    assert_eq!(pool.start_next(), Some("first-group"));
    assert_eq!(first.submit_exclusive("first-group-next", |_| panic!("in flight")), Ok(()));
    assert_eq!(second.submit_exclusive("other-group", |job| pool.submit(job, false)), Ok(()));
    // The first group's runner yields: its continuation goes behind the other group's job,
    // through the continuation reserve although the admission limit is reached.
    assert!(first.finish_job());
    assert_eq!(pool.submit("first-group-continuation", true), Ok(()));
    assert_eq!(pool.start_next(), Some("other-group"));
    assert_eq!(pool.start_next(), Some("first-group-continuation"));
    assert_eq!(first.take_next(), Some("first-group-next"));
    assert_eq!(pool.counters.queue_stats().rejected, 0);
}

#[test]
fn dropping_pool_drains_accepted_group_callbacks() {
    let mut pool = Pool::new(1, DEFAULT_QUEUE_CAPACITY);
    let mut group = CallbackGroup::mutually_exclusive(6);
    assert_eq!(group.submit_exclusive("started", |job| pool.submit(job, false)), Ok(()));
    assert_eq!(pool.start_next(), Some("started"));
    assert_eq!(group.submit_exclusive("done", |_| panic!("in flight")), Ok(()));
    pool.open = false;
    assert!(group.finish_job());
    // The continuation cannot be queued on a closed pool: the runner drains locally.
    assert_eq!(pool.submit("continuation", true), Err(SubmitError::Closed));
    assert_eq!(group.take_next(), Some("done"));
    assert!(!group.finish_job());
    assert_eq!(group.queue_stats().pending, 0);
}

#[test]
fn routes_follow_group_kind_and_pool() {
    let ex: CallbackGroup<u8> = CallbackGroup::mutually_exclusive(7);
    let re: CallbackGroup<u8> = CallbackGroup::reentrant(8);
    assert_eq!(ex.route(false), JobRoute::Inline);
    assert_eq!(re.route(false), JobRoute::Inline);
    assert_eq!(re.route(true), JobRoute::Pool);
    assert_eq!(ex.id(), 7);
    assert_eq!(re.kind(), CallbackGroupType::Reentrant);
    let g: CallbackGroup<u8> = CallbackGroup::new(9, CallbackGroupType::MutuallyExclusive);
    assert_eq!(g.queue_stats().capacity, 1024);
    let z: CallbackGroup<u8> = CallbackGroup::with_queue_capacity(10, CallbackGroupType::MutuallyExclusive, 0);
    assert_eq!(z.queue_stats().capacity, 1);
}

#[test]
fn waiting_jobs_leave_in_arrival_order() {
    let mut g = CallbackGroup::with_queue_capacity(11, CallbackGroupType::MutuallyExclusive, 3);
    assert_eq!(g.submit_exclusive(0u8, |_| Ok(())), Ok(()));
    assert_eq!(g.submit_exclusive(1u8, |_| panic!()), Ok(()));
    assert_eq!(g.submit_exclusive(2u8, |_| panic!()), Ok(()));
    assert_eq!(g.take_next(), Some(1));
    assert_eq!(g.take_next(), Some(2));
    assert_eq!(g.take_next(), None);
}

#[test]
fn full_queue_rejects_without_blocking_and_recovers() {
    let mut pool = Pool::new(1, 1);
    assert_eq!(pool.submit("started", false), Ok(()));
    assert_eq!(pool.start_next(), Some("started"));
    assert_eq!(pool.submit("done", false), Ok(()));
    let result = pool.submit("rejected job must never run", false);
    let stats = pool.counters.queue_stats();
    assert_eq!(result, Err(SubmitError::Full));
    assert_eq!(stats.pending, 1);
    assert_eq!(stats.rejected, 1);
    assert_eq!(pool.start_next(), Some("done"));
    assert_eq!(pool.counters.queue_stats().pending, 0);
}

#[test]
fn pool_sizes_clamp_and_reserve_continuations() {
    let s = pool_sizes(0, 0);
    assert_eq!((s.workers, s.admission_limit, s.capacity), (1, 1, 2));
    let s = pool_sizes(4, 10);
    assert_eq!((s.workers, s.admission_limit, s.capacity), (4, 10, 14));
    let s = pool_sizes(2, usize::MAX);
    assert_eq!(s.capacity, usize::MAX);
    assert_eq!(SubmitError::Full.message(), "callback queue is full");
    assert_eq!(SubmitError::Closed.message(), "worker pool is closed");
}

#[test]
fn mod_create_callback_group_kinds() {
    let mut ids = GroupIds::new();
    let exclusive: CallbackGroup<()> = ids.create_group(CallbackGroupType::MutuallyExclusive);
    let reentrant: CallbackGroup<()> = ids.create_group(CallbackGroupType::Reentrant);
    assert_eq!(exclusive.kind(), CallbackGroupType::MutuallyExclusive);
    assert_eq!(reentrant.kind(), CallbackGroupType::Reentrant);
    assert_ne!(exclusive.id(), reentrant.id());
    assert_eq!((exclusive.id(), reentrant.id(), ids.next_id()), (1, 2, 3));
    let small: CallbackGroup<()> = ids.create_group_with_capacity(CallbackGroupType::MutuallyExclusive, 0);
    assert_eq!((small.id(), small.queue_stats().capacity), (3, 1));
}

#[test]
fn many_waiting_jobs_leave_in_arrival_order() {
    let mut group = CallbackGroup::mutually_exclusive(9);
    assert_eq!(group.submit_exclusive(0u32, |_| Ok(())), Ok(()));
    for job in 1..=5u32 {
        assert_eq!(group.submit_exclusive(job, |_| panic!("runner already in flight")), Ok(()));
    }
    let mut taken = Vec::new();
    while group.finish_job() {
        taken.push(group.take_next().unwrap());
    }
    assert_eq!(taken, vec![1, 2, 3, 4, 5]);
    assert!(!group.is_running());
    assert_eq!(group.queue_stats().pending, 0);
}
