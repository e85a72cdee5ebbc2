//! Periodic timers of an executor (ROS 2–style `create_timer`).
//!
//! Time is counted in nanoseconds from an origin the caller picks (one
//! monotonic clock per executor); a timer's callback and callback group are
//! carried along opaquely.
use vstd::prelude::*;

verus! {

/// Opaque id returned by an executor's `create_timer`.
#[derive(Debug, Clone, Copy, PartialEq, Eq, Hash, Structural)]
pub struct TimerHandle {
    pub(crate) id: u64,
}

impl View for TimerHandle {
    type V = u64;

    closed spec fn view(&self) -> u64 {
        self.id
    }
}

impl TimerHandle {
    /// The handle of the timer with id `id`.
    pub(crate) fn from_id(id: u64) -> (h: Self)
        ensures
            h@ == id,
    {
        TimerHandle { id }
    }

    /// Id of the timer this handle names.
    pub(crate) fn timer_id(&self) -> (id: u64)
        ensures
            id == self@,
    {
        self.id
    }
}

/// Opaque id returned when subscribing a callback to a topic.
#[derive(Debug, Clone, Copy, PartialEq, Eq, Hash, Structural)]
pub struct SubscriptionHandle {
    pub(crate) id: u64,
}

impl View for SubscriptionHandle {
    type V = u64;

    closed spec fn view(&self) -> u64 {
        self.id
    }
}

impl SubscriptionHandle {
    /// The handle of the subscription with id `id`.
    pub(crate) fn from_id(id: u64) -> (h: Self)
        ensures
            h@ == id,
    {
        SubscriptionHandle { id }
    }

    /// Id of the subscription this handle names.
    pub fn id(&self) -> (id: u64)
        ensures
            id == self@,
    {
        self.id
    }
}

/// One periodic timer.
pub struct Timer<C, G> {
    pub id: u64,
    /// Period in nanoseconds.
    pub period_ns: u128,
    /// Next time (nanoseconds) the timer is due.
    pub next_deadline_ns: u128,
    pub callback: C,
    pub group: G,
    pub cancelled: bool,
}

impl<C, G> Timer<C, G> {
    /// A timer first due one period after `now_ns`.
    pub fn new(id: u64, period_ns: u128, now_ns: u128, callback: C, group: G) -> (t: Self)
        requires
            now_ns + period_ns <= u128::MAX,
        ensures
            t.id == id,
            t.period_ns == period_ns,
            t.next_deadline_ns == now_ns + period_ns,
            t.callback == callback,
            t.group == group,
            !t.cancelled,
    {
        Timer { id, period_ns, next_deadline_ns: now_ns + period_ns, callback, group, cancelled: false }
    }
}

/// The timer is active and its deadline has passed.
pub open spec fn timer_due<C, G>(t: Timer<C, G>, now: u128) -> bool {
    !t.cancelled && t.next_deadline_ns <= now
}

/// Indices below `k` of the timers that are due, in increasing order.
pub open spec fn due_indices<C, G>(ts: Seq<Timer<C, G>>, now: u128, k: int) -> Seq<usize>
    decreases k,
{
    if k <= 0 {
        Seq::empty()
    } else {
        let before = due_indices(ts, now, k - 1);
        if timer_due(ts[k - 1], now) {
            before.push((k - 1) as usize)
        } else {
            before
        }
    }
}

/// Timer `t` after a tick at `now`: a due timer is rescheduled one period from `now`.
pub open spec fn ticked<C, G>(t: Timer<C, G>, now: u128) -> Timer<C, G> {
    if timer_due(t, now) {
        Timer { next_deadline_ns: (now + t.period_ns) as u128, ..t }
    } else {
        t
    }
}

/// Whole milliseconds from `now` to the deadline of `t` (zero once due), at most `i64::MAX`.
pub open spec fn ms_until<C, G>(t: Timer<C, G>, now: u128) -> int {
    if t.next_deadline_ns <= now {
        0
    } else if (t.next_deadline_ns - now) / 1_000_000 > i64::MAX {
        i64::MAX as int
    } else {
        (t.next_deadline_ns - now) / 1_000_000
    }
}

/// Soonest wait over the active timers among the first `k`, if any is active.
pub open spec fn min_ms_until<C, G>(ts: Seq<Timer<C, G>>, now: u128, k: int) -> Option<int>
    decreases k,
{
    if k <= 0 {
        None
    } else {
        let before = min_ms_until(ts, now, k - 1);
        if ts[k - 1].cancelled {
            before
        } else {
            let m = ms_until(ts[k - 1], now);
            match before {
                None => Some(m),
                Some(b) => Some(if m < b { m } else { b }),
            }
        }
    }
}

/// Fire every due timer once, then reschedule it from `now_ns + period`.
///
/// Returns the indices of the timers that fired, in order; their callbacks
/// are for the caller to run through each timer's callback group.
pub fn tick_timers<C, G>(timers: &mut Vec<Timer<C, G>>, now_ns: u128) -> (fired: Vec<usize>)
    requires
        forall|i: int| 0 <= i < old(timers)@.len() ==> now_ns + #[trigger] old(timers)@[i].period_ns <= u128::MAX,
    ensures
        fired@ == due_indices(old(timers)@, now_ns, old(timers)@.len() as int),
        final(timers)@.len() == old(timers)@.len(),
        forall|i: int| 0 <= i < old(timers)@.len() ==> #[trigger] final(timers)@[i] == ticked(old(timers)@[i], now_ns),
{
    let mut fired: Vec<usize> = Vec::new();
    let n = timers.len();
    let mut i: usize = 0;
    while i < n
        invariant
            n == old(timers)@.len(),
            timers@.len() == n,
            i <= n,
            fired@ == due_indices(old(timers)@, now_ns, i as int),
            forall|j: int| 0 <= j < i ==> #[trigger] timers@[j] == ticked(old(timers)@[j], now_ns),
            forall|j: int| i <= j < n ==> #[trigger] timers@[j] == old(timers)@[j],
            forall|j: int| 0 <= j < n ==> now_ns + #[trigger] old(timers)@[j].period_ns <= u128::MAX,
        decreases n - i,
    {
        if !timers[i].cancelled && timers[i].next_deadline_ns <= now_ns {
            assert(now_ns + old(timers)@[i as int].period_ns <= u128::MAX);
            let next = now_ns + timers[i].period_ns;
            timers[i].next_deadline_ns = next;
            fired.push(i);
        }
        i = i + 1;
    }
    fired
}

/// Milliseconds until the soonest active timer, or `None` if none is active.
pub fn ms_until_next_timer<C, G>(timers: &Vec<Timer<C, G>>, now_ns: u128) -> (r: Option<i64>)
    ensures
        match min_ms_until(timers@, now_ns, timers@.len() as int) {
            None => r is None,
            Some(m) => r == Some(m as i64) && 0 <= m <= i64::MAX,
        },
{
    let mut best: Option<i64> = None;
    let mut i: usize = 0;
    while i < timers.len()
        invariant
            i <= timers@.len(),
            match min_ms_until(timers@, now_ns, i as int) {
                None => best is None,
                Some(m) => best == Some(m as i64) && 0 <= m <= i64::MAX,
            },
        decreases timers@.len() - i,
    {
        if !timers[i].cancelled {
            let deadline = timers[i].next_deadline_ns;
            let m: i64 = if deadline <= now_ns {
                0
            } else {
                let q = (deadline - now_ns) / 1_000_000;
                if q > 9_223_372_036_854_775_807u128 {
                    i64::MAX
                } else {
                    q as i64
                }
            };
            assert(m == ms_until(timers@[i as int], now_ns));
            best = match best {
                None => Some(m),
                Some(b) => Some(if m < b { m } else { b }),
            };
        }
        i = i + 1;
    }
    best
}

/// Poll timeout for one executor step: the requested wait (negative counts as
/// zero), shortened to the soonest active timer.
pub fn effective_poll_timeout_ms<C, G>(timers: &Vec<Timer<C, G>>, requested_ms: i64, now_ns: u128) -> (r: i64)
    ensures
        ({
            let req = if requested_ms < 0 { 0 } else { requested_ms as int };
            match min_ms_until(timers@, now_ns, timers@.len() as int) {
                None => r == req,
                Some(m) => r == (if m < req { m } else { req }),
            }
        }),
{
    let req: i64 = if requested_ms < 0 { 0 } else { requested_ms };
    match ms_until_next_timer(timers, now_ns) {
        Some(until) => if until < req { until } else { req },
        None => req,
    }
}

/// Some timer has id `id`.
pub open spec fn timer_known<C, G>(ts: Seq<Timer<C, G>>, id: u64) -> bool {
    exists|i: int| 0 <= i < ts.len() && (#[trigger] ts[i]).id == id
}

/// Index of the first timer with id `id`.
pub open spec fn first_timer_with_id<C, G>(ts: Seq<Timer<C, G>>, id: u64) -> int {
    choose|i: int| 0 <= i < ts.len() && ts[i].id == id && forall|j: int| 0 <= j < i ==> (#[trigger] ts[j]).id != id
}

pub proof fn lemma_first_timer_with_id<C, G>(ts: Seq<Timer<C, G>>, id: u64, i: int)
    requires
        0 <= i < ts.len(),
        ts[i].id == id,
        forall|j: int| 0 <= j < i ==> (#[trigger] ts[j]).id != id,
    ensures
        first_timer_with_id(ts, id) == i,
        timer_known(ts, id),
{
    let k = first_timer_with_id(ts, id);
    assert(0 <= k < ts.len() && ts[k].id == id && forall|j: int| 0 <= j < k ==> (#[trigger] ts[j]).id != id);
    if k < i {
        assert(ts[k].id != id);
    } else if k > i {
        assert(ts[i].id != id);
    }
}

/// Mark the first timer with id `id` cancelled; `false` when no timer has it.
pub fn cancel_timer_by_id<C, G>(timers: &mut Vec<Timer<C, G>>, id: u64) -> (found: bool)
    ensures
        found == timer_known(old(timers)@, id),
        found ==> final(timers)@ == old(timers)@.update(
            first_timer_with_id(old(timers)@, id),
            Timer { cancelled: true, ..old(timers)@[first_timer_with_id(old(timers)@, id)] },
        ),
        !found ==> final(timers)@ == old(timers)@,
{
    let mut i: usize = 0;
    while i < timers.len()
        invariant
            i <= timers@.len(),
            timers@ == old(timers)@,
            forall|j: int| 0 <= j < i ==> (#[trigger] timers@[j]).id != id,
        decreases timers@.len() - i,
    {
        if timers[i].id == id {
            proof {
                lemma_first_timer_with_id(timers@, id, i as int);
            }
            timers[i].cancelled = true;
            return true;
        }
        i = i + 1;
    }
    false
}

} // verus!
