//! ROS 2–style executors: [`SingleThreadedExecutor`] and [`MultiThreadedExecutor`].
//!
//! This module holds the executor's bookkeeping and every rule about when an
//! operation is allowed: registered sockets (opaque `R`), timers (callbacks
//! `C`, groups `G`), the started / closed lifecycle and the stop flag. The
//! caller performs the socket polling and the worker threads, and calls in
//! here before each step.
use vstd::prelude::*;
use crate::errors::{BusError, ErrorView};
use crate::qos::HighWaterMark;
use crate::shutdown::ShutdownHandle;
use std::sync::atomic::AtomicBool;
use crate::text::{concat2, decimal, u64_to_decimal};
use crate::timers::{cancel_timer_by_id, first_timer_with_id, timer_known, Timer, TimerHandle};
use crate::worker_pool::{pool_sizes, PoolSizes, DEFAULT_QUEUE_CAPACITY};

verus! {

/// Poll timeout used while spinning without a caller deadline.
pub const DEFAULT_POLL_TIMEOUT_MS: i64 = 250;

/// Interval of worker heartbeats to the broker.
pub const DEFAULT_HEARTBEAT_INTERVAL_MS: u64 = 2500;

/// Kind of a socket registration.
#[derive(Debug, Clone, Copy, PartialEq, Eq, Structural)]
pub enum RegistrationKind {
    Sub,
    Service,
    Action,
    ActionClient,
}

/// Mathematical state of an executor.
pub struct ExecutorState<R, C, G> {
    pub sockets: Seq<(RegistrationKind, R)>,
    pub services: Seq<R>,
    pub actions: Seq<R>,
    pub action_client: Option<R>,
    pub timers: Seq<Timer<C, G>>,
    pub next_timer_id: u64,
    pub worker_pool: Option<PoolSizes>,
    pub started: bool,
    pub closed: bool,
    pub has_thread: bool,
    pub stream_hwm: HighWaterMark,
    pub rpc_hwm: HighWaterMark,
    pub action_hwm: HighWaterMark,
    /// The stop flag that the executor's shutdown handles name.
    pub stop_flag: AtomicBool,
}

/// `s` read back to front, each item tagged with `kind`.
pub open spec fn tagged_rev<R>(kind: RegistrationKind, s: Seq<R>) -> Seq<(RegistrationKind, R)> {
    Seq::new(s.len(), |i: int| (kind, s[s.len() - 1 - i]))
}

/// State after the waiting worker registrations joined the polled sockets:
/// services then actions, each taken from the back of its list.
pub open spec fn spec_sync_workers<R, C, G>(s: ExecutorState<R, C, G>) -> ExecutorState<R, C, G> {
    ExecutorState {
        sockets: s.sockets + tagged_rev(RegistrationKind::Service, s.services) + tagged_rev(
            RegistrationKind::Action,
            s.actions,
        ),
        services: Seq::empty(),
        actions: Seq::empty(),
        ..s
    }
}

/// State after the waiting action client joined the polled sockets.
pub open spec fn spec_sync_client<R, C, G>(s: ExecutorState<R, C, G>) -> ExecutorState<R, C, G> {
    match s.action_client {
        Some(c) => ExecutorState {
            sockets: s.sockets.push((RegistrationKind::ActionClient, c)),
            action_client: None,
            ..s
        },
        None => s,
    }
}

/// Whether any timer is still active.
pub open spec fn any_active_timer<C, G>(ts: Seq<Timer<C, G>>) -> bool {
    exists|i: int| 0 <= i < ts.len() && !(#[trigger] ts[i]).cancelled
}

/// State after a spin step prepared itself: when nothing is polled yet, every
/// waiting registration joins.
pub open spec fn spec_prepared<R, C, G>(s: ExecutorState<R, C, G>) -> ExecutorState<R, C, G> {
    if s.sockets.len() == 0 {
        spec_sync_client(spec_sync_workers(s))
    } else {
        s
    }
}

/// Error of a spin step on a prepared state, if it may not run.
pub open spec fn nothing_registered<R, C, G>(s: ExecutorState<R, C, G>) -> bool {
    s.sockets.len() == 0 && !any_active_timer(s.timers)
}

pub open spec fn nothing_registered_msg() -> Seq<char> {
    "nothing registered; connect_subscriber, register worker, or create_timer first"@
}

/// Message of an operation refused while the background thread runs.
pub open spec fn while_started_msg(op: Seq<char>) -> Seq<char> {
    op + "() cannot run while start() is active"@
}

/// Whether some polled socket has `kind`.
pub open spec fn has_kind<R>(sockets: Seq<(RegistrationKind, R)>, kind: RegistrationKind) -> bool {
    exists|i: int| 0 <= i < sockets.len() && (#[trigger] sockets[i]).0 == kind
}

/// Outcome of the checks before a spin step (`spin_once`, `spin_some`, `spin`):
/// closed, then started, then nothing to poll.
pub open spec fn spin_check<R, C, G>(s: ExecutorState<R, C, G>, op: Seq<char>) -> Option<ErrorView> {
    if s.closed {
        Some(ErrorView::Closed)
    } else if s.started {
        Some(ErrorView::Protocol(while_started_msg(op)))
    } else if nothing_registered(spec_prepared(s)) {
        Some(ErrorView::Protocol(nothing_registered_msg()))
    } else {
        None
    }
}

/// State after the checks of a spin step.
pub open spec fn spin_state<R, C, G>(s: ExecutorState<R, C, G>) -> ExecutorState<R, C, G> {
    if s.closed || s.started {
        s
    } else {
        spec_prepared(s)
    }
}

/// Poll timeout of a spin step asked to wait `timeout_ms` (`None`: the default wait).
pub open spec fn spec_timeout_to_ms(timeout_ms: Option<u128>) -> i64 {
    match timeout_ms {
        None => DEFAULT_POLL_TIMEOUT_MS,
        Some(ms) => if ms > i64::MAX { i64::MAX } else { ms as i64 },
    }
}

/// Poll timeout for a wait given in whole milliseconds, capped at `i64::MAX`;
/// without a wait, the default poll timeout.
pub fn timeout_to_ms(timeout_ms: Option<u128>) -> (r: i64)
    ensures
        r == spec_timeout_to_ms(timeout_ms),
{
    match timeout_ms {
        None => DEFAULT_POLL_TIMEOUT_MS,
        Some(ms) => if ms > 9_223_372_036_854_775_807u128 {
            i64::MAX
        } else {
            ms as i64
        },
    }
}

/// Poll timeout of the next `spin_some` round, or `None` when the loop ends:
/// once work was seen only ready work is drained (zero wait); otherwise the
/// time left to the deadline in whole milliseconds (the loop ends only when no
/// time at all is left), or the default wait.
pub open spec fn spec_spin_some_poll(draining: bool, remaining_ns: Option<u128>) -> Option<i64> {
    if draining {
        Some(0)
    } else {
        match remaining_ns {
            Some(ns) => if ns == 0 {
                None
            } else if ns / 1_000_000 > i64::MAX {
                Some(i64::MAX)
            } else {
                Some((ns / 1_000_000) as i64)
            },
            None => Some(DEFAULT_POLL_TIMEOUT_MS),
        }
    }
}

/// Decide the poll timeout of one `spin_some` round, given the nanoseconds
/// left before its deadline (`None`: no deadline).
pub fn spin_some_poll_ms(draining: bool, remaining_ns: Option<u128>) -> (r: Option<i64>)
    ensures
        r == spec_spin_some_poll(draining, remaining_ns),
{
    if draining {
        Some(0)
    } else {
        match remaining_ns {
            Some(ns) => {
                let ms = ns / 1_000_000;
                if ns == 0 {
                    None
                } else if ms > 9_223_372_036_854_775_807u128 {
                    Some(i64::MAX)
                } else {
                    Some(ms as i64)
                }
            },
            None => Some(DEFAULT_POLL_TIMEOUT_MS),
        }
    }
}

/// Shared state of one poll-loop executor.
pub struct ExecutorHandle<R, C, G> {
    sockets: Vec<(RegistrationKind, R)>,
    services: Vec<R>,
    actions: Vec<R>,
    action_client: Option<R>,
    timers: Vec<Timer<C, G>>,
    next_timer_id: u64,
    worker_pool: Option<PoolSizes>,
    running: ShutdownHandle,
    started: bool,
    closed: bool,
    has_thread: bool,
    stream_hwm: HighWaterMark,
    rpc_hwm: HighWaterMark,
    action_hwm: HighWaterMark,
}

impl<R, C, G> View for ExecutorHandle<R, C, G> {
    type V = ExecutorState<R, C, G>;

    closed spec fn view(&self) -> ExecutorState<R, C, G> {
        ExecutorState {
            sockets: self.sockets@,
            services: self.services@,
            actions: self.actions@,
            action_client: self.action_client,
            timers: self.timers@,
            next_timer_id: self.next_timer_id,
            worker_pool: self.worker_pool,
            started: self.started,
            closed: self.closed,
            has_thread: self.has_thread,
            stream_hwm: self.stream_hwm,
            rpc_hwm: self.rpc_hwm,
            action_hwm: self.action_hwm,
            stop_flag: self.running.spec_flag(),
        }
    }
}

/// State of a fresh executor.
pub open spec fn fresh_state<R, C, G>(worker_pool: Option<PoolSizes>, stop_flag: AtomicBool) -> ExecutorState<R, C, G> {
    ExecutorState {
        sockets: Seq::empty(),
        services: Seq::empty(),
        actions: Seq::empty(),
        action_client: None,
        timers: Seq::empty(),
        next_timer_id: 1,
        worker_pool,
        started: false,
        closed: false,
        has_thread: false,
        stream_hwm: HighWaterMark { snd: 8, rcv: 8 },
        rpc_hwm: HighWaterMark { snd: 1000, rcv: 1000 },
        action_hwm: HighWaterMark { snd: 1000, rcv: 1000 },
        stop_flag,
    }
}

impl<R, C, G> ExecutorHandle<R, C, G> {
    fn with_pool(worker_pool: Option<PoolSizes>) -> (e: Self)
        ensures
            e@ == fresh_state::<R, C, G>(worker_pool, e@.stop_flag),
    {
        ExecutorHandle {
            sockets: Vec::new(),
            services: Vec::new(),
            actions: Vec::new(),
            action_client: None,
            timers: Vec::new(),
            next_timer_id: 1,
            worker_pool,
            running: ShutdownHandle::new(),
            started: false,
            closed: false,
            has_thread: false,
            stream_hwm: HighWaterMark { snd: 8, rcv: 8 },
            rpc_hwm: HighWaterMark { snd: 1000, rcv: 1000 },
            action_hwm: HighWaterMark { snd: 1000, rcv: 1000 },
        }
    }

    /// A single-threaded executor: every callback runs on the spin thread.
    pub fn new() -> (e: Self)
        ensures
            e@ == fresh_state::<R, C, G>(None, e@.stop_flag),
    {
        Self::with_pool(None)
    }

    /// An executor that offloads callbacks to a pool of `max_workers` threads.
    pub fn with_worker_pool(max_workers: usize, queue_capacity: usize) -> (e: Self)
        ensures
            e@.worker_pool matches Some(p) && p == pool_sizes_spec(max_workers, queue_capacity),
            e@ == fresh_state::<R, C, G>(e@.worker_pool, e@.stop_flag),
    {
        Self::with_pool(Some(pool_sizes(max_workers, queue_capacity)))
    }

    /// The stop flag of this executor.
    pub closed spec fn stop_flag(&self) -> AtomicBool {
        self@.stop_flag
    }

    /// Cloneable token that stops [`spin`](Self::spin) / [`start`](Self::start):
    /// a handle on this executor's own stop flag.
    pub fn shutdown_handle(&self) -> (r: Result<ShutdownHandle, BusError>)
        ensures
            r matches Ok(h) && h.spec_flag() == self.stop_flag(),
    {
        Ok(self.running.share())
    }

    /// Signal the executor to leave `spin` / background `start`.
    pub fn shutdown(&self) -> (r: Result<(), BusError>)
        ensures
            r is Ok,
    {
        self.running.shutdown();
        Ok(())
    }

    fn ensure_open(&self) -> (r: Result<(), BusError>)
        ensures
            r is Err <==> self@.closed,
            r matches Err(e) ==> e@ == ErrorView::Closed,
    {
        if self.closed {
            Err(BusError::Closed)
        } else {
            Ok(())
        }
    }

    fn sync_worker_registrations(&mut self)
        ensures
            final(self)@ == spec_sync_workers(old(self)@),
    {
        let ghost s0 = self@;
        while self.services.len() > 0
            invariant
                s0 == old(self)@,
                self.services@.len() <= s0.services.len(),
                self.services@ == s0.services.subrange(0, self.services@.len() as int),
                self.sockets@ == s0.sockets + tagged_rev(
                    RegistrationKind::Service,
                    s0.services.subrange(self.services@.len() as int, s0.services.len() as int),
                ),
                self.actions@ == s0.actions,
                self@ == (ExecutorState { sockets: self.sockets@, services: self.services@, ..s0 }),
            decreases self.services@.len(),
        {
            let ghost k = self.services@.len();
            let ghost before = self.services@;
            let popped = self.services.pop();
            proof {
                assert(popped == Some(before[k - 1]));
                assert(self.services@ == before.subrange(0, k - 1));
                assert(before[k - 1] == s0.services[k - 1]);
            }
            let reg = popped.unwrap();
            self.sockets.push((RegistrationKind::Service, reg));
            proof {
                let tail = s0.services.subrange(k - 1, s0.services.len() as int);
                let prev = s0.services.subrange(k as int, s0.services.len() as int);
                assert(tagged_rev(RegistrationKind::Service, tail) =~= tagged_rev(
                    RegistrationKind::Service,
                    prev,
                ).push((RegistrationKind::Service, reg)));
                assert(self.services@ =~= s0.services.subrange(0, k - 1));
            }
        }
        proof {
            assert(s0.services.subrange(0, s0.services.len() as int) =~= s0.services);
        }
        while self.actions.len() > 0
            invariant
                s0 == old(self)@,
                self.actions@.len() <= s0.actions.len(),
                self.actions@ == s0.actions.subrange(0, self.actions@.len() as int),
                self.sockets@ == s0.sockets + tagged_rev(RegistrationKind::Service, s0.services)
                    + tagged_rev(
                    RegistrationKind::Action,
                    s0.actions.subrange(self.actions@.len() as int, s0.actions.len() as int),
                ),
                self.services@ == Seq::<R>::empty(),
                self@ == (ExecutorState {
                    sockets: self.sockets@,
                    services: self.services@,
                    actions: self.actions@,
                    ..s0
                }),
            decreases self.actions@.len(),
        {
            let ghost k = self.actions@.len();
            let reg = self.actions.pop().unwrap();
            self.sockets.push((RegistrationKind::Action, reg));
            proof {
                let tail = s0.actions.subrange(k - 1, s0.actions.len() as int);
                let prev = s0.actions.subrange(k as int, s0.actions.len() as int);
                assert(tagged_rev(RegistrationKind::Action, tail) =~= tagged_rev(
                    RegistrationKind::Action,
                    prev,
                ).push((RegistrationKind::Action, reg)));
                assert(self.actions@ =~= s0.actions.subrange(0, k - 1));
            }
        }
        proof {
            assert(s0.actions.subrange(0, s0.actions.len() as int) =~= s0.actions);
            assert(self.actions@ =~= Seq::<R>::empty());
        }
    }

    fn sync_action_client_registration(&mut self)
        ensures
            final(self)@ == spec_sync_client(old(self)@),
    {
        if let Some(reg) = self.action_client.take() {
            self.sockets.push((RegistrationKind::ActionClient, reg));
        }
    }

    fn prepare_for_spin(&mut self) -> (r: Result<(), BusError>)
        ensures
            final(self)@ == spec_prepared(old(self)@),
            r is Err <==> nothing_registered(spec_prepared(old(self)@)),
            r matches Err(e) ==> e@ == ErrorView::Protocol(nothing_registered_msg()),
    {
        if self.sockets.len() == 0 {
            self.sync_worker_registrations();
            self.sync_action_client_registration();
        }
        let mut has_timers = false;
        let mut i: usize = 0;
        while i < self.timers.len()
            invariant
                i <= self.timers@.len(),
                self@ == spec_prepared(old(self)@),
                has_timers == (exists|j: int| 0 <= j < i && !(#[trigger] self.timers@[j]).cancelled),
            decreases self.timers@.len() - i,
        {
            if !self.timers[i].cancelled {
                has_timers = true;
            }
            i = i + 1;
        }
        if self.sockets.len() == 0 && !has_timers {
            return Err(BusError::Protocol(
                "nothing registered; connect_subscriber, register worker, or create_timer first".to_owned(),
            ));
        }
        Ok(())
    }
}

impl<R, C, G> ExecutorHandle<R, C, G> {
    /// The polled registrations, for one poll-and-dispatch step.
    pub fn sockets_mut(&mut self) -> (r: &mut Vec<(RegistrationKind, R)>)
        ensures
            r@ == old(self)@.sockets,
            final(self)@ == (ExecutorState { sockets: final(r)@, ..old(self)@ }),
    {
        &mut self.sockets
    }

    /// The timers, for one poll-and-dispatch step.
    pub fn timers_mut(&mut self) -> (r: &mut Vec<Timer<C, G>>)
        ensures
            r@ == old(self)@.timers,
            final(self)@ == (ExecutorState { timers: final(r)@, ..old(self)@ }),
    {
        &mut self.timers
    }

    /// Sizes of the worker pool, when callbacks are offloaded.
    pub fn worker_pool(&self) -> (r: Option<PoolSizes>)
        ensures
            r == self@.worker_pool,
    {
        self.worker_pool
    }

    /// The id the next timer gets.
    pub fn next_timer_id(&self) -> (r: u64)
        ensures
            r == self@.next_timer_id,
    {
        self.next_timer_id
    }

    /// Defaults used for newly connected PUB/SUB sockets.
    pub fn stream_hwm(&self) -> (r: HighWaterMark)
        ensures
            r == self@.stream_hwm,
    {
        self.stream_hwm
    }

    /// Defaults used for newly registered service workers.
    pub fn rpc_hwm(&self) -> (r: HighWaterMark)
        ensures
            r == self@.rpc_hwm,
    {
        self.rpc_hwm
    }

    /// Defaults used for newly connected action sockets.
    pub fn action_hwm(&self) -> (r: HighWaterMark)
        ensures
            r == self@.action_hwm,
    {
        self.action_hwm
    }

    /// Set the marks for subsequent subscriber sockets (the caller re-applies
    /// them to the sockets already connected).
    pub fn set_stream_hwm(&mut self, hwm: HighWaterMark) -> (r: Result<(), BusError>)
        ensures
            r is Err <==> old(self)@.closed,
            r matches Err(e) ==> e@ == ErrorView::Closed,
            r is Ok ==> final(self)@ == (ExecutorState { stream_hwm: hwm, ..old(self)@ }),
            r is Err ==> final(self)@ == old(self)@,
    {
        self.ensure_open()?;
        self.stream_hwm = hwm;
        Ok(())
    }

    /// Set the marks for subsequent service worker sockets.
    pub fn set_rpc_hwm(&mut self, hwm: HighWaterMark) -> (r: Result<(), BusError>)
        ensures
            r is Err <==> old(self)@.closed,
            r matches Err(e) ==> e@ == ErrorView::Closed,
            r is Ok ==> final(self)@ == (ExecutorState { rpc_hwm: hwm, ..old(self)@ }),
            r is Err ==> final(self)@ == old(self)@,
    {
        self.ensure_open()?;
        self.rpc_hwm = hwm;
        Ok(())
    }

    /// Set the marks for subsequent action client / worker sockets.
    pub fn set_action_hwm(&mut self, hwm: HighWaterMark) -> (r: Result<(), BusError>)
        ensures
            r is Err <==> old(self)@.closed,
            r matches Err(e) ==> e@ == ErrorView::Closed,
            r is Ok ==> final(self)@ == (ExecutorState { action_hwm: hwm, ..old(self)@ }),
            r is Err ==> final(self)@ == old(self)@,
    {
        self.ensure_open()?;
        self.action_hwm = hwm;
        Ok(())
    }

    fn has_registration(&self, kind: RegistrationKind) -> (r: bool)
        ensures
            r == has_kind(self@.sockets, kind),
    {
        let mut i: usize = 0;
        while i < self.sockets.len()
            invariant
                i <= self.sockets@.len(),
                forall|j: int| 0 <= j < i ==> (#[trigger] self.sockets@[j]).0 != kind,
            decreases self.sockets@.len() - i,
        {
            if self.sockets[i].0 == kind {
                return true;
            }
            i = i + 1;
        }
        false
    }

    /// Add a connected subscriber socket.
    pub fn connect_subscriber(&mut self, reg: R) -> (r: Result<(), BusError>)
        ensures
            r is Err <==> old(self)@.closed,
            r matches Err(e) ==> e@ == ErrorView::Closed,
            r is Ok ==> final(self)@ == (ExecutorState {
                sockets: old(self)@.sockets.push((RegistrationKind::Sub, reg)),
                ..old(self)@
            }),
            r is Err ==> final(self)@ == old(self)@,
    {
        self.ensure_open()?;
        self.sockets.push((RegistrationKind::Sub, reg));
        Ok(())
    }

    /// Check that a topic subscription may be added: open, with a subscriber socket.
    pub fn check_subscribe(&self) -> (r: Result<(), BusError>)
        ensures
            self@.closed ==> (r matches Err(e) && e@ == ErrorView::Closed),
            !self@.closed && !has_kind(self@.sockets, RegistrationKind::Sub) ==> (r matches Err(e)
                && e@ == ErrorView::Protocol("connect_subscriber() before subscribe()"@)),
            r is Ok <==> (!self@.closed && has_kind(self@.sockets, RegistrationKind::Sub)),
    {
        self.ensure_open()?;
        if !self.has_registration(RegistrationKind::Sub) {
            return Err(BusError::Protocol("connect_subscriber() before subscribe()".to_owned()));
        }
        Ok(())
    }

    /// Add a service worker; it joins the polled sockets at once.
    pub fn register_service(&mut self, reg: R) -> (r: Result<(), BusError>)
        ensures
            r is Err <==> old(self)@.closed,
            r matches Err(e) ==> e@ == ErrorView::Closed,
            r is Ok ==> final(self)@ == spec_sync_workers(ExecutorState {
                services: old(self)@.services.push(reg),
                ..old(self)@
            }),
            r is Err ==> final(self)@ == old(self)@,
    {
        self.ensure_open()?;
        self.services.push(reg);
        self.sync_worker_registrations();
        Ok(())
    }

    /// Add an action worker; it joins the polled sockets at once.
    pub fn register_action(&mut self, reg: R) -> (r: Result<(), BusError>)
        ensures
            r is Err <==> old(self)@.closed,
            r matches Err(e) ==> e@ == ErrorView::Closed,
            r is Ok ==> final(self)@ == spec_sync_workers(ExecutorState {
                actions: old(self)@.actions.push(reg),
                ..old(self)@
            }),
            r is Err ==> final(self)@ == old(self)@,
    {
        self.ensure_open()?;
        self.actions.push(reg);
        self.sync_worker_registrations();
        Ok(())
    }

    /// Add the (single) action client socket.
    pub fn connect_action_client(&mut self, reg: R) -> (r: Result<(), BusError>)
        ensures
            old(self)@.closed ==> (r matches Err(e) && e@ == ErrorView::Closed),
            !old(self)@.closed && (old(self)@.action_client is Some || has_kind(
                old(self)@.sockets,
                RegistrationKind::ActionClient,
            )) ==> (r matches Err(e) && e@ == ErrorView::Protocol(
                "action client already connected"@,
            )),
            r is Err ==> final(self)@ == old(self)@,
            r is Ok ==> {
                &&& !old(self)@.closed
                &&& old(self)@.action_client is None
                &&& !has_kind(old(self)@.sockets, RegistrationKind::ActionClient)
                &&& final(self)@ == (ExecutorState {
                    sockets: old(self)@.sockets.push((RegistrationKind::ActionClient, reg)),
                    ..old(self)@
                })
            },
    {
        self.ensure_open()?;
        if self.action_client.is_some() || self.has_registration(RegistrationKind::ActionClient) {
            return Err(BusError::Protocol("action client already connected".to_owned()));
        }
        self.action_client = Some(reg);
        self.sync_action_client_registration();
        Ok(())
    }

    fn check_action_client(&self, message: &str) -> (r: Result<(), BusError>)
        ensures
            self@.closed ==> (r matches Err(e) && e@ == ErrorView::Closed),
            !self@.closed && self@.action_client is None && !has_kind(
                self@.sockets,
                RegistrationKind::ActionClient,
            ) ==> (r matches Err(e) && e@ == ErrorView::Protocol(message@)),
            r is Ok <==> (!self@.closed && (self@.action_client is Some || has_kind(
                self@.sockets,
                RegistrationKind::ActionClient,
            ))),
    {
        self.ensure_open()?;
        if self.action_client.is_none() && !self.has_registration(RegistrationKind::ActionClient) {
            return Err(BusError::Protocol(message.to_owned()));
        }
        Ok(())
    }

    /// Check that a goal may be sent: open, with an action client.
    pub fn check_send_goal(&self) -> (r: Result<(), BusError>)
        ensures
            self@.closed ==> (r matches Err(e) && e@ == ErrorView::Closed),
            !self@.closed && self@.action_client is None && !has_kind(
                self@.sockets,
                RegistrationKind::ActionClient,
            ) ==> (r matches Err(e) && e@ == ErrorView::Protocol(
                "connect_action_client() before send_goal()"@,
            )),
            r is Ok <==> (!self@.closed && (self@.action_client is Some || has_kind(
                self@.sockets,
                RegistrationKind::ActionClient,
            ))),
    {
        self.check_action_client("connect_action_client() before send_goal()")
    }

    /// Check that a goal may be cancelled: open, with an action client.
    pub fn check_cancel_goal(&self) -> (r: Result<(), BusError>)
        ensures
            self@.closed ==> (r matches Err(e) && e@ == ErrorView::Closed),
            !self@.closed && self@.action_client is None && !has_kind(
                self@.sockets,
                RegistrationKind::ActionClient,
            ) ==> (r matches Err(e) && e@ == ErrorView::Protocol(
                "connect_action_client() before cancel_goal()"@,
            )),
            r is Ok <==> (!self@.closed && (self@.action_client is Some || has_kind(
                self@.sockets,
                RegistrationKind::ActionClient,
            ))),
    {
        self.check_action_client("connect_action_client() before cancel_goal()")
    }

    fn spin_checks(&mut self, op: &str) -> (r: Result<(), BusError>)
        ensures
            final(self)@ == spin_state(old(self)@, ),
            match spin_check(old(self)@, op@) {
                Some(e) => r matches Err(x) && x@ == e,
                None => r is Ok,
            },
    {
        self.ensure_open()?;
        if self.started {
            return Err(BusError::Protocol(concat2(op, "() cannot run while start() is active")));
        }
        self.prepare_for_spin()
    }

    /// Checks of one executor step (ROS 2 `spin_once`); on success, the poll
    /// timeout of the step, for a wait of `timeout_ms` whole milliseconds.
    pub fn spin_once(&mut self, timeout_ms: Option<u128>) -> (r: Result<i64, BusError>)
        ensures
            final(self)@ == spin_state(old(self)@),
            match spin_check(old(self)@, "spin_once"@) {
                Some(e) => r matches Err(x) && x@ == e,
                None => r == Ok::<i64, BusError>(spec_timeout_to_ms(timeout_ms)),
            },
    {
        self.spin_checks("spin_once")?;
        Ok(timeout_to_ms(timeout_ms))
    }

    /// Checks of a `spin_some` drain; on success the stop flag is raised.
    pub fn spin_some(&mut self) -> (r: Result<(), BusError>)
        ensures
            final(self)@ == spin_state(old(self)@),
            match spin_check(old(self)@, "spin_some"@) {
                Some(e) => r matches Err(x) && x@ == e,
                None => r is Ok,
            },
    {
        self.spin_checks("spin_some")?;
        self.running.set_running();
        Ok(())
    }

    /// Checks of a blocking `spin`; on success the stop flag is raised.
    pub fn spin(&mut self) -> (r: Result<(), BusError>)
        ensures
            final(self)@ == spin_state(old(self)@),
            match spin_check(old(self)@, "spin"@) {
                Some(e) => r matches Err(x) && x@ == e,
                None => r is Ok,
            },
    {
        self.spin_checks("spin")?;
        self.running.set_running();
        Ok(())
    }

    /// Start the background loop. Returns the registrations and timers it
    /// takes over, or `None` when it already runs.
    pub fn start(&mut self) -> (r: Result<Option<(Vec<(RegistrationKind, R)>, Vec<Timer<C, G>>)>, BusError>)
        ensures
            old(self)@.closed ==> (r matches Err(e) && e@ == ErrorView::Closed && final(self)@
                == old(self)@),
            !old(self)@.closed && old(self)@.started ==> (r matches Ok(None) && final(self)@
                == old(self)@),
            !old(self)@.closed && !old(self)@.started && nothing_registered(
                spec_prepared(old(self)@),
            ) ==> (r matches Err(e) && e@ == ErrorView::Protocol(nothing_registered_msg())
                && final(self)@ == spec_prepared(old(self)@)),
            !old(self)@.closed && !old(self)@.started && !nothing_registered(
                spec_prepared(old(self)@),
            ) ==> (r matches Ok(Some(parts)) && parts.0@ == spec_prepared(old(self)@).sockets
                && parts.1@ == old(self)@.timers && final(self)@ == (ExecutorState {
                sockets: Seq::empty(),
                timers: Seq::empty(),
                started: true,
                has_thread: true,
                ..spec_prepared(old(self)@)
            })),
    {
        self.ensure_open()?;
        if self.started {
            return Ok(None);
        }
        self.prepare_for_spin()?;
        self.running.set_running();
        self.started = true;
        self.has_thread = true;
        let mut sockets = Vec::new();
        std::mem::swap(&mut sockets, &mut self.sockets);
        let mut timers = Vec::new();
        std::mem::swap(&mut timers, &mut self.timers);
        Ok(Some((sockets, timers)))
    }

    /// Stop for good: lower the stop flag and drop every registration and
    /// timer. Returns `None` when already stopped; otherwise whether a
    /// background thread must be joined, and the polled registrations to
    /// disconnect and close.
    pub fn stop(&mut self) -> (r: Option<(bool, Vec<(RegistrationKind, R)>)>)
        ensures
            old(self)@.closed ==> r is None && final(self)@ == old(self)@,
            !old(self)@.closed ==> (r matches Some(work) && work.0 == old(self)@.has_thread
                && work.1@ == old(self)@.sockets && final(self)@ == (ExecutorState {
                sockets: Seq::empty(),
                services: Seq::empty(),
                actions: Seq::empty(),
                action_client: None,
                timers: Seq::empty(),
                started: false,
                closed: true,
                has_thread: false,
                ..old(self)@
            })),
    {
        if self.closed {
            return None;
        }
        self.running.shutdown();
        let join = self.has_thread;
        self.has_thread = false;
        let mut sockets = Vec::new();
        std::mem::swap(&mut sockets, &mut self.sockets);
        self.services = Vec::new();
        self.actions = Vec::new();
        self.action_client = None;
        self.timers = Vec::new();
        self.started = false;
        self.closed = true;
        Some((join, sockets))
    }

    /// Whether a background thread must be joined; it is then no longer tracked.
    pub fn wait(&mut self) -> (join: bool)
        ensures
            join == old(self)@.has_thread,
            final(self)@ == (ExecutorState { has_thread: false, ..old(self)@ }),
    {
        let join = self.has_thread;
        self.has_thread = false;
        join
    }

    /// Create a periodic timer (ROS 2 `create_timer`), first due one period
    /// after `now_ns`.
    pub fn create_timer(&mut self, period_ns: u128, now_ns: u128, callback: C, group: G) -> (r: Result<TimerHandle, BusError>)
        requires
            old(self)@.next_timer_id < u64::MAX,
            now_ns + period_ns <= u128::MAX,
        ensures
            old(self)@.closed ==> (r matches Err(e) && e@ == ErrorView::Closed),
            !old(self)@.closed && old(self)@.started ==> (r matches Err(e) && e@
                == ErrorView::Protocol(while_started_msg("create_timer"@))),
            !old(self)@.closed && !old(self)@.started && period_ns == 0 ==> (r matches Err(e) && e@
                == ErrorView::Protocol("timer period must be greater than zero"@)),
            r is Err ==> final(self)@ == old(self)@,
            r is Ok <==> (!old(self)@.closed && !old(self)@.started && period_ns > 0),
            r matches Ok(h) ==> {
                &&& h@ == old(self)@.next_timer_id
                &&& final(self)@ == (ExecutorState {
                    timers: old(self)@.timers.push(Timer {
                        id: old(self)@.next_timer_id,
                        period_ns,
                        next_deadline_ns: (now_ns + period_ns) as u128,
                        callback,
                        group,
                        cancelled: false,
                    }),
                    next_timer_id: (old(self)@.next_timer_id + 1) as u64,
                    ..old(self)@
                })
            },
    {
        self.ensure_open()?;
        if self.started {
            return Err(BusError::Protocol(concat2("create_timer", "() cannot run while start() is active")));
        }
        if period_ns == 0 {
            return Err(BusError::Protocol("timer period must be greater than zero".to_owned()));
        }
        let id = self.next_timer_id;
        self.next_timer_id = self.next_timer_id + 1;
        self.timers.push(Timer::new(id, period_ns, now_ns, callback, group));
        Ok(TimerHandle::from_id(id))
    }

    /// Cancel a timer created by [`create_timer`](Self::create_timer): the
    /// first timer with its id stops firing.
    pub fn cancel_timer(&mut self, handle: TimerHandle) -> (r: Result<(), BusError>)
        ensures
            old(self)@.closed ==> (r matches Err(e) && e@ == ErrorView::Closed),
            !old(self)@.closed && old(self)@.started ==> (r matches Err(e) && e@
                == ErrorView::Protocol(while_started_msg("cancel_timer"@))),
            !old(self)@.closed && !old(self)@.started && !timer_known(old(self)@.timers, handle@) ==> (r matches Err(e)
                && e@ == ErrorView::Protocol("unknown timer id "@ + decimal(handle@ as nat))),
            r is Err ==> final(self)@ == old(self)@,
            r is Ok <==> (!old(self)@.closed && !old(self)@.started && timer_known(old(self)@.timers, handle@)),
            r is Ok ==> final(self)@ == (ExecutorState {
                timers: old(self)@.timers.update(
                    first_timer_with_id(old(self)@.timers, handle@),
                    Timer { cancelled: true, ..old(self)@.timers[first_timer_with_id(old(self)@.timers, handle@)] },
                ),
                ..old(self)@
            }),
    {
        self.ensure_open()?;
        if self.started {
            return Err(BusError::Protocol(concat2("cancel_timer", "() cannot run while start() is active")));
        }
        let id = handle.timer_id();
        if cancel_timer_by_id(&mut self.timers, id) {
            return Ok(());
        }
        Err(BusError::Protocol(concat2("unknown timer id ", u64_to_decimal(id).as_str())))
    }
}

/// All callbacks run on the spin / I/O thread (ROS 2 `SingleThreadedExecutor`).
pub struct SingleThreadedExecutor<R, C, G> {
    handle: ExecutorHandle<R, C, G>,
}

impl<R, C, G> View for SingleThreadedExecutor<R, C, G> {
    type V = ExecutorState<R, C, G>;

    closed spec fn view(&self) -> ExecutorState<R, C, G> {
        self.handle@
    }
}

impl<R, C, G> SingleThreadedExecutor<R, C, G> {
    /// All callbacks run on the spin / I/O thread.
    pub fn new() -> (e: Self)
        ensures
            e@ == fresh_state::<R, C, G>(None, e@.stop_flag),
    {
        SingleThreadedExecutor { handle: ExecutorHandle::new() }
    }

    /// The shared executor behind this one.
    pub fn handle(&self) -> (h: &ExecutorHandle<R, C, G>)
        ensures
            h@ == self@,
    {
        &self.handle
    }

    /// The shared executor behind this one, for registering and stepping.
    pub fn handle_mut(&mut self) -> (h: &mut ExecutorHandle<R, C, G>)
        ensures
            h@ == old(self)@,
            final(self)@ == final(h)@,
    {
        &mut self.handle
    }

    /// The stop flag of this executor.
    pub closed spec fn stop_flag(&self) -> AtomicBool {
        self.handle.stop_flag()
    }

    /// A handle on this executor's own stop flag.
    pub fn shutdown_handle(&self) -> (r: Result<ShutdownHandle, BusError>)
        ensures
            r matches Ok(h) && h.spec_flag() == self.stop_flag(),
    {
        self.handle.shutdown_handle()
    }

    pub fn shutdown(&self) -> (r: Result<(), BusError>)
        ensures
            r is Ok,
    {
        self.handle.shutdown()
    }

    /// See [`ExecutorHandle::spin_once`].
    pub fn spin_once(&mut self, timeout_ms: Option<u128>) -> (r: Result<i64, BusError>)
        ensures
            final(self)@ == spin_state(old(self)@),
            match spin_check(old(self)@, "spin_once"@) {
                Some(e) => (r matches Err(x) && x@ == e),
                None => r == Ok::<i64, BusError>(spec_timeout_to_ms(timeout_ms)),
            },
    {
        self.handle.spin_once(timeout_ms)
    }

    /// See [`ExecutorHandle::spin_some`].
    pub fn spin_some(&mut self) -> (r: Result<(), BusError>)
        ensures
            final(self)@ == spin_state(old(self)@),
            match spin_check(old(self)@, "spin_some"@) {
                Some(e) => (r matches Err(x) && x@ == e),
                None => r is Ok,
            },
    {
        self.handle.spin_some()
    }

    /// See [`ExecutorHandle::spin`].
    pub fn spin(&mut self) -> (r: Result<(), BusError>)
        ensures
            final(self)@ == spin_state(old(self)@),
            match spin_check(old(self)@, "spin"@) {
                Some(e) => (r matches Err(x) && x@ == e),
                None => r is Ok,
            },
    {
        self.handle.spin()
    }

    /// See [`ExecutorHandle::start`].
    pub fn start(&mut self) -> (r: Result<Option<(Vec<(RegistrationKind, R)>, Vec<Timer<C, G>>)>, BusError>)
        ensures
            old(self)@.closed ==> (r matches Err(e) && e@ == ErrorView::Closed && final(self)@
                == old(self)@),
            !old(self)@.closed && old(self)@.started ==> (r matches Ok(None) && final(self)@
                == old(self)@),
            !old(self)@.closed && !old(self)@.started && nothing_registered(
                spec_prepared(old(self)@),
            ) ==> (r matches Err(e) && e@ == ErrorView::Protocol(nothing_registered_msg())
                && final(self)@ == spec_prepared(old(self)@)),
            !old(self)@.closed && !old(self)@.started && !nothing_registered(
                spec_prepared(old(self)@),
            ) ==> (r matches Ok(Some(parts)) && parts.0@ == spec_prepared(old(self)@).sockets
                && parts.1@ == old(self)@.timers && final(self)@ == (ExecutorState {
                sockets: Seq::empty(),
                timers: Seq::empty(),
                started: true,
                has_thread: true,
                ..spec_prepared(old(self)@)
            })),
    {
        self.handle.start()
    }

    /// See [`ExecutorHandle::stop`].
    pub fn stop(&mut self) -> (r: Option<(bool, Vec<(RegistrationKind, R)>)>)
        ensures
            old(self)@.closed ==> r is None && final(self)@ == old(self)@,
            !old(self)@.closed ==> (r matches Some(work) && work.0 == old(self)@.has_thread
                && work.1@ == old(self)@.sockets && final(self)@ == (ExecutorState {
                sockets: Seq::empty(),
                services: Seq::empty(),
                actions: Seq::empty(),
                action_client: None,
                timers: Seq::empty(),
                started: false,
                closed: true,
                has_thread: false,
                ..old(self)@
            })),
    {
        self.handle.stop()
    }

    /// See [`ExecutorHandle::wait`].
    pub fn wait(&mut self) -> (join: bool)
        ensures
            join == old(self)@.has_thread,
            final(self)@ == (ExecutorState { has_thread: false, ..old(self)@ }),
    {
        self.handle.wait()
    }
}

/// Callbacks may use a bounded worker pool (simplified ROS 2 `MultiThreadedExecutor`).
pub struct MultiThreadedExecutor<R, C, G> {
    handle: ExecutorHandle<R, C, G>,
}

impl<R, C, G> View for MultiThreadedExecutor<R, C, G> {
    type V = ExecutorState<R, C, G>;

    closed spec fn view(&self) -> ExecutorState<R, C, G> {
        self.handle@
    }
}

impl<R, C, G> MultiThreadedExecutor<R, C, G> {
    /// Callbacks may run on a pool of at most `num_threads` workers, subject
    /// to each callback group's type.
    pub fn new(num_threads: usize) -> (e: Self)
        ensures
            e@ == fresh_state::<R, C, G>(Some(pool_sizes_spec(num_threads, DEFAULT_QUEUE_CAPACITY)), e@.stop_flag),
    {
        MultiThreadedExecutor { handle: ExecutorHandle::with_worker_pool(num_threads, DEFAULT_QUEUE_CAPACITY) }
    }

    /// The shared executor behind this one.
    pub fn handle(&self) -> (h: &ExecutorHandle<R, C, G>)
        ensures
            h@ == self@,
    {
        &self.handle
    }

    /// The shared executor behind this one, for registering and stepping.
    pub fn handle_mut(&mut self) -> (h: &mut ExecutorHandle<R, C, G>)
        ensures
            h@ == old(self)@,
            final(self)@ == final(h)@,
    {
        &mut self.handle
    }

    /// The stop flag of this executor.
    pub closed spec fn stop_flag(&self) -> AtomicBool {
        self.handle.stop_flag()
    }

    /// A handle on this executor's own stop flag.
    pub fn shutdown_handle(&self) -> (r: Result<ShutdownHandle, BusError>)
        ensures
            r matches Ok(h) && h.spec_flag() == self.stop_flag(),
    {
        self.handle.shutdown_handle()
    }

    pub fn shutdown(&self) -> (r: Result<(), BusError>)
        ensures
            r is Ok,
    {
        self.handle.shutdown()
    }

    /// See [`ExecutorHandle::spin_once`].
    pub fn spin_once(&mut self, timeout_ms: Option<u128>) -> (r: Result<i64, BusError>)
        ensures
            final(self)@ == spin_state(old(self)@),
            match spin_check(old(self)@, "spin_once"@) {
                Some(e) => (r matches Err(x) && x@ == e),
                None => r == Ok::<i64, BusError>(spec_timeout_to_ms(timeout_ms)),
            },
    {
        self.handle.spin_once(timeout_ms)
    }

    /// See [`ExecutorHandle::spin_some`].
    pub fn spin_some(&mut self) -> (r: Result<(), BusError>)
        ensures
            final(self)@ == spin_state(old(self)@),
            match spin_check(old(self)@, "spin_some"@) {
                Some(e) => (r matches Err(x) && x@ == e),
                None => r is Ok,
            },
    {
        self.handle.spin_some()
    }

    /// See [`ExecutorHandle::spin`].
    pub fn spin(&mut self) -> (r: Result<(), BusError>)
        ensures
            final(self)@ == spin_state(old(self)@),
            match spin_check(old(self)@, "spin"@) {
                Some(e) => (r matches Err(x) && x@ == e),
                None => r is Ok,
            },
    {
        self.handle.spin()
    }

    /// See [`ExecutorHandle::start`].
    pub fn start(&mut self) -> (r: Result<Option<(Vec<(RegistrationKind, R)>, Vec<Timer<C, G>>)>, BusError>)
        ensures
            old(self)@.closed ==> (r matches Err(e) && e@ == ErrorView::Closed && final(self)@
                == old(self)@),
            !old(self)@.closed && old(self)@.started ==> (r matches Ok(None) && final(self)@
                == old(self)@),
            !old(self)@.closed && !old(self)@.started && nothing_registered(
                spec_prepared(old(self)@),
            ) ==> (r matches Err(e) && e@ == ErrorView::Protocol(nothing_registered_msg())
                && final(self)@ == spec_prepared(old(self)@)),
            !old(self)@.closed && !old(self)@.started && !nothing_registered(
                spec_prepared(old(self)@),
            ) ==> (r matches Ok(Some(parts)) && parts.0@ == spec_prepared(old(self)@).sockets
                && parts.1@ == old(self)@.timers && final(self)@ == (ExecutorState {
                sockets: Seq::empty(),
                timers: Seq::empty(),
                started: true,
                has_thread: true,
                ..spec_prepared(old(self)@)
            })),
    {
        self.handle.start()
    }

    /// See [`ExecutorHandle::stop`].
    pub fn stop(&mut self) -> (r: Option<(bool, Vec<(RegistrationKind, R)>)>)
        ensures
            old(self)@.closed ==> r is None && final(self)@ == old(self)@,
            !old(self)@.closed ==> (r matches Some(work) && work.0 == old(self)@.has_thread
                && work.1@ == old(self)@.sockets && final(self)@ == (ExecutorState {
                sockets: Seq::empty(),
                services: Seq::empty(),
                actions: Seq::empty(),
                action_client: None,
                timers: Seq::empty(),
                started: false,
                closed: true,
                has_thread: false,
                ..old(self)@
            })),
    {
        self.handle.stop()
    }

    /// See [`ExecutorHandle::wait`].
    pub fn wait(&mut self) -> (join: bool)
        ensures
            join == old(self)@.has_thread,
            final(self)@ == (ExecutorState { has_thread: false, ..old(self)@ }),
    {
        self.handle.wait()
    }
}

/// [`pool_sizes`] as a specification.
pub open spec fn pool_sizes_spec(max_workers: usize, queue_capacity: usize) -> PoolSizes {
    let workers = if max_workers == 0 { 1usize } else { max_workers };
    let admission_limit = if queue_capacity == 0 { 1usize } else { queue_capacity };
    PoolSizes {
        workers,
        admission_limit,
        capacity: if admission_limit + workers > usize::MAX {
            usize::MAX
        } else {
            (admission_limit + workers) as usize
        },
    }
}

/// A stopped executor stays stopped: every spin step is refused as `Closed`
/// and leaves the executor as it is.
pub proof fn law_stopped_executor_refuses<R, C, G>(s: ExecutorState<R, C, G>, op: Seq<char>)
    requires
        s.closed,
    ensures
        spin_check(s, op) == Some(ErrorView::Closed),
        spin_state(s) == s,
{
}

/// A running background loop refuses the foreground spin steps, naming the step.
pub proof fn law_started_executor_refuses_spin<R, C, G>(s: ExecutorState<R, C, G>, op: Seq<char>)
    requires
        !s.closed,
        s.started,
    ensures
        spin_check(s, op) == Some(ErrorView::Protocol(while_started_msg(op))),
        spin_state(s) == s,
{
}

/// Timer ids increase along the list and stay below the next id to hand out.
pub open spec fn timer_ids_ok<C, G>(ts: Seq<Timer<C, G>>, next: u64) -> bool {
    &&& forall|i: int| 0 <= i < ts.len() ==> (#[trigger] ts[i]).id < next
    &&& forall|i: int, j: int| 0 <= i < j < ts.len() ==> (#[trigger] ts[i]).id < (#[trigger] ts[j]).id
}

/// Every timer gets an id of its own: creating a timer keeps the ids
/// increasing and below the next id, so no two timers share one.
pub proof fn law_timer_ids_distinct<C, G>(ts: Seq<Timer<C, G>>, next: u64, t: Timer<C, G>)
    requires
        timer_ids_ok(ts, next),
        t.id == next,
        next < u64::MAX,
    ensures
        timer_ids_ok(ts.push(t), (next + 1) as u64),
        forall|i: int, j: int| 0 <= i < j < ts.push(t).len() ==> (#[trigger] ts.push(t)[i]).id != (#[trigger] ts.push(t)[j]).id,
{
    let s = ts.push(t);
    assert forall|i: int, j: int| 0 <= i < j < s.len() implies (#[trigger] s[i]).id < (#[trigger] s[j]).id by {
        if j < ts.len() {
            assert(s[i] == ts[i] && s[j] == ts[j]);
        } else {
            assert(s[i] == ts[i]);
        }
    }
    assert forall|i: int| 0 <= i < s.len() implies (#[trigger] s[i]).id < next + 1 by {
        if i < ts.len() {
            assert(s[i] == ts[i]);
        }
    }
}

} // verus!
