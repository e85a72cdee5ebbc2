//! Node ↔ broker session: connection state machine, discover retry with backoff, liveness.
//!
//! The session thread itself (sleeping, HTTP discover, callbacks) lives with the caller; it
//! asks [`SessionMachine`] what to do next and reports what happened.
use vstd::prelude::*;
use crate::node_options::{spec_needs_endpoint_discover, NodeOptions, NodeOptionsView};
use crate::text::{concat3, str_eq};
use crate::transports::DEFAULT_API_PORT;

verus! {

/// Backoff after a failed discover, in milliseconds.
pub const SESSION_BACKOFF_INITIAL_MS: u64 = 200;
/// Cap of the discover backoff, in milliseconds.
pub const SESSION_BACKOFF_MAX_MS: u64 = 5000;
/// How often a connected node re-probes discover, in milliseconds.
pub const SESSION_LIVENESS_INTERVAL_MS: u64 = 3000;
/// Timeout of one discover call, in milliseconds.
pub const SESSION_DISCOVER_TIMEOUT_MS: u64 = 800;
/// How long `create_*` waits for the session to connect, in milliseconds.
pub const SESSION_CREATE_WAIT_MS: u64 = 3000;

/// Broker link state of a node.
#[derive(Debug, Clone, Copy, PartialEq, Eq, Structural)]
pub enum ConnectionState {
    Created,
    Discovering,
    Connecting,
    Connected,
    Reconnecting,
    Shutdown,
}

pub open spec fn spec_state_name(s: ConnectionState) -> Seq<char> {
    match s {
        ConnectionState::Created => "created"@,
        ConnectionState::Discovering => "discovering"@,
        ConnectionState::Connecting => "connecting"@,
        ConnectionState::Connected => "connected"@,
        ConnectionState::Reconnecting => "reconnecting"@,
        ConnectionState::Shutdown => "shutdown"@,
    }
}

impl ConnectionState {
    /// Lower-case name of the state.
    pub fn as_str(self) -> (r: &'static str)
        ensures
            r@ == spec_state_name(self),
    {
        match self {
            ConnectionState::Created => "created",
            ConnectionState::Discovering => "discovering",
            ConnectionState::Connecting => "connecting",
            ConnectionState::Connected => "connected",
            ConnectionState::Reconnecting => "reconnecting",
            ConnectionState::Shutdown => "shutdown",
        }
    }

    /// The state's name as an owned string (its display text).
    pub fn to_string(self) -> (r: String)
        ensures
            r@ == spec_state_name(self),
    {
        self.as_str().to_owned()
    }
}

/// A state change that listeners are told about.
#[derive(Debug, Clone, Copy, PartialEq, Eq)]
pub struct StateChange {
    pub prev: ConnectionState,
    pub next: ConnectionState,
    /// Why the state changed.
    pub reason: &'static str,
    /// The reconnect hook runs (this is a Reconnecting → Connected change).
    pub run_reconnect_hook: bool,
}

/// The session needs HTTP discover / liveness probes: WebSocket mode, or ZeroMQ endpoints
/// still unknown.
pub open spec fn spec_requires_http_liveness(v: NodeOptionsView) -> bool {
    v.transport == "ws"@ || spec_needs_endpoint_discover(v)
}

pub fn requires_http_liveness(opts: &NodeOptions) -> (r: bool)
    ensures
        r == spec_requires_http_liveness(opts@),
{
    opts.is_ws() || opts.needs_endpoint_discover()
}

/// Broker API URL on `host` at the default port.
pub open spec fn spec_api_url_for_host(host: Seq<char>) -> Seq<char> {
    "http://"@ + host + ":15560"@
}

pub fn api_url_for_host(host: &str) -> (r: String)
    ensures
        r@ == spec_api_url_for_host(host@),
{
    concat3("http://", host, ":15560")
}

/// URL to discover against: the console URL, else the WebSocket URL (when non-empty), else
/// the API on the configured host.
pub open spec fn spec_discover_api_url(v: NodeOptionsView) -> Seq<char> {
    if v.console_url is Some && v.console_url->0.len() > 0 {
        v.console_url->0
    } else if v.ws_url is Some && v.ws_url->0.len() > 0 {
        v.ws_url->0
    } else {
        spec_api_url_for_host(v.host)
    }
}

pub fn discover_api_url(opts: &NodeOptions) -> (r: String)
    ensures
        r@ == spec_discover_api_url(opts@),
{
    if let Some(url) = &opts.console_url {
        if url.as_str().unicode_len() > 0 {
            return url.clone();
        }
    }
    if let Some(url) = &opts.ws_url {
        if url.as_str().unicode_len() > 0 {
            return url.clone();
        }
    }
    api_url_for_host(opts.host.as_str())
}

/// Doubled backoff, capped.
pub open spec fn spec_next_backoff(b: u64) -> u64 {
    if 2 * b > SESSION_BACKOFF_MAX_MS {
        SESSION_BACKOFF_MAX_MS
    } else {
        (2 * b) as u64
    }
}

pub fn next_backoff(b: u64) -> (r: u64)
    ensures
        r == spec_next_backoff(b),
{
    if b > SESSION_BACKOFF_MAX_MS / 2 {
        SESSION_BACKOFF_MAX_MS
    } else {
        2 * b
    }
}

/// What the session thread does next.
#[derive(Debug, Clone, Copy, PartialEq, Eq, Structural)]
pub enum SessionAction {
    /// Leave the loop.
    Exit,
    /// Endpoints are local: mark the session connected without HTTP.
    ConnectLocal,
    /// Run a discover attempt (after `before_discover`).
    Discover,
    /// Connected: wait the liveness interval, then probe again.
    Liveness,
}

/// Outcome of a discover attempt as the session loop reports it.
#[derive(Debug, Clone, Copy, PartialEq, Eq, Structural)]
pub enum DiscoverOutcome {
    Succeeded,
    Failed,
}

/// Decision state of one broker session.
pub struct SessionMachine {
    state: ConnectionState,
    options: NodeOptions,
    backoff_ms: u64,
    discover_fail_logged: bool,
}

/// `set_state` on a mathematical state: the state after a request to move to `next`.
pub open spec fn spec_after_set(cur: ConnectionState, next: ConnectionState) -> ConnectionState {
    if cur == ConnectionState::Shutdown && next != ConnectionState::Shutdown {
        cur
    } else {
        next
    }
}

/// The change reported for a request to move from `cur` to `next`: none when the state
/// stays, otherwise the move, with the reconnect hook exactly on `Reconnecting → Connected`.
pub open spec fn spec_change(cur: ConnectionState, next: ConnectionState, reason: &'static str) -> Option<
    StateChange,
> {
    if spec_after_set(cur, next) == cur {
        None
    } else {
        Some(
            StateChange {
                prev: cur,
                next,
                reason,
                run_reconnect_hook: cur == ConnectionState::Reconnecting && next
                    == ConnectionState::Connected,
            },
        )
    }
}

/// The reported changes of a step: the change when there is one.
pub open spec fn change_seq(c: Option<StateChange>) -> Seq<StateChange> {
    match c {
        Some(ch) => seq![ch],
        None => Seq::empty(),
    }
}

impl SessionMachine {
    pub closed spec fn spec_state(&self) -> ConnectionState {
        self.state
    }

    pub closed spec fn spec_options(&self) -> NodeOptionsView {
        self.options@
    }

    pub closed spec fn spec_backoff(&self) -> u64 {
        self.backoff_ms
    }

    pub closed spec fn spec_fail_logged(&self) -> bool {
        self.discover_fail_logged
    }

    /// The backoff stays within `[initial, max]`.
    pub closed spec fn wf(&self) -> bool {
        SESSION_BACKOFF_INITIAL_MS <= self.backoff_ms <= SESSION_BACKOFF_MAX_MS
    }

    /// A fresh session in state `Created`.
    pub fn new(options: NodeOptions) -> (m: Self)
        ensures
            m.wf(),
            m.spec_state() == ConnectionState::Created,
            m.spec_options() == options@,
            m.spec_backoff() == SESSION_BACKOFF_INITIAL_MS,
            !m.spec_fail_logged(),
    {
        SessionMachine {
            state: ConnectionState::Created,
            options,
            backoff_ms: SESSION_BACKOFF_INITIAL_MS,
            discover_fail_logged: false,
        }
    }

    pub fn state(&self) -> (s: ConnectionState)
        ensures
            s == self.spec_state(),
    {
        self.state
    }

    pub fn options(&self) -> (o: NodeOptions)
        ensures
            o@ == self.spec_options(),
    {
        self.options.clone()
    }

    pub fn backoff_ms(&self) -> (b: u64)
        ensures
            b == self.spec_backoff(),
    {
        self.backoff_ms
    }

    /// Whether the current options need HTTP probes.
    pub fn requires_http(&self) -> (r: bool)
        ensures
            r == spec_requires_http_liveness(self.spec_options()),
    {
        requires_http_liveness(&self.options)
    }

    /// Request a move to `next`. Once `Shutdown`, only `Shutdown` is accepted; a move to the
    /// current state is no change. A change is reported, with the reconnect hook exactly on
    /// `Reconnecting → Connected`.
    pub fn set_state(&mut self, next: ConnectionState, reason: &'static str) -> (c: Option<
        StateChange,
    >)
        ensures
            final(self).spec_state() == spec_after_set(old(self).spec_state(), next),
            final(self).spec_options() == old(self).spec_options(),
            final(self).spec_backoff() == old(self).spec_backoff(),
            final(self).spec_fail_logged() == old(self).spec_fail_logged(),
            c is Some <==> final(self).spec_state() != old(self).spec_state(),
            c == spec_change(old(self).spec_state(), next, reason),
    {
        if self.state == ConnectionState::Shutdown && next != ConnectionState::Shutdown {
            return None;
        }
        if self.state == next {
            return None;
        }
        let prev = self.state;
        self.state = next;
        Some(
            StateChange {
                prev,
                next,
                reason,
                run_reconnect_hook: prev == ConnectionState::Reconnecting && next
                    == ConnectionState::Connected,
            },
        )
    }

    /// First transitions of the session thread: `Discovering` when HTTP is needed, else
    /// `Connecting` then `Connected`.
    pub fn start(&mut self) -> (changes: Vec<StateChange>)
        requires
            old(self).wf(),
        ensures
            final(self).wf(),
            final(self).spec_options() == old(self).spec_options(),
            spec_requires_http_liveness(old(self).spec_options()) ==> final(self).spec_state()
                == spec_after_set(old(self).spec_state(), ConnectionState::Discovering),
            !spec_requires_http_liveness(old(self).spec_options()) ==> final(self).spec_state()
                == spec_after_set(
                spec_after_set(old(self).spec_state(), ConnectionState::Connecting),
                ConnectionState::Connected,
            ),
            final(self).spec_backoff() == old(self).spec_backoff(),
            spec_requires_http_liveness(old(self).spec_options()) ==> changes@ == change_seq(
                spec_change(old(self).spec_state(), ConnectionState::Discovering, "start discover"),
            ),
            !spec_requires_http_liveness(old(self).spec_options()) ==> changes@ == change_seq(
                spec_change(old(self).spec_state(), ConnectionState::Connecting, "endpoints known"),
            ) + change_seq(
                spec_change(
                    spec_after_set(old(self).spec_state(), ConnectionState::Connecting),
                    ConnectionState::Connected,
                    "local endpoints",
                ),
            ),
    {
        let mut changes: Vec<StateChange> = Vec::new();
        if self.requires_http() {
            if let Some(c) = self.set_state(ConnectionState::Discovering, "start discover") {
                changes.push(c);
            }
            assert(changes@ =~= change_seq(
                spec_change(old(self).spec_state(), ConnectionState::Discovering, "start discover"),
            ));
        } else {
            let c1 = self.set_state(ConnectionState::Connecting, "endpoints known");
            if let Some(c) = c1 {
                changes.push(c);
            }
            let ghost first = changes@;
            assert(first =~= change_seq(c1));
            let c2 = self.set_state(ConnectionState::Connected, "local endpoints");
            if let Some(c) = c2 {
                changes.push(c);
            }
            assert(changes@ =~= first + change_seq(c2));
        }
        changes
    }

    /// What the loop does in the current state.
    pub fn next_action(&self) -> (a: SessionAction)
        ensures
            self.spec_state() == ConnectionState::Shutdown ==> a == SessionAction::Exit,
            self.spec_state() == ConnectionState::Connected ==> a == SessionAction::Liveness,
            self.spec_state() != ConnectionState::Shutdown && self.spec_state()
                != ConnectionState::Connected ==> a == if spec_requires_http_liveness(
                self.spec_options(),
            ) {
                SessionAction::Discover
            } else {
                SessionAction::ConnectLocal
            },
    {
        match self.state {
            ConnectionState::Shutdown => SessionAction::Exit,
            ConnectionState::Connected => SessionAction::Liveness,
            _ => if self.requires_http() {
                SessionAction::Discover
            } else {
                SessionAction::ConnectLocal
            },
        }
    }

    /// Endpoints are local: connected, backoff reset.
    pub fn connect_local(&mut self) -> (c: Option<StateChange>)
        requires
            old(self).wf(),
        ensures
            final(self).wf(),
            final(self).spec_state() == spec_after_set(
                old(self).spec_state(),
                ConnectionState::Connected,
            ),
            final(self).spec_backoff() == SESSION_BACKOFF_INITIAL_MS,
            final(self).spec_options() == old(self).spec_options(),
            c == spec_change(old(self).spec_state(), ConnectionState::Connected, "local endpoints"),
    {
        let c = self.set_state(ConnectionState::Connected, "local endpoints");
        self.backoff_ms = SESSION_BACKOFF_INITIAL_MS;
        c
    }

    /// State change announced before a discover attempt; returns the state the attempt
    /// started in (which decides where a failure leads).
    pub fn before_discover(&mut self) -> (r: (ConnectionState, Option<StateChange>))
        requires
            old(self).wf(),
        ensures
            final(self).wf(),
            r.0 == old(self).spec_state(),
            final(self).spec_options() == old(self).spec_options(),
            final(self).spec_backoff() == old(self).spec_backoff(),
            final(self).spec_state() == match old(self).spec_state() {
                ConnectionState::Created | ConnectionState::Discovering => spec_after_set(
                    old(self).spec_state(),
                    ConnectionState::Discovering,
                ),
                ConnectionState::Reconnecting => ConnectionState::Connecting,
                _ => old(self).spec_state(),
            },
            r.1 == match old(self).spec_state() {
                ConnectionState::Created | ConnectionState::Discovering => spec_change(
                    old(self).spec_state(),
                    ConnectionState::Discovering,
                    "discover",
                ),
                ConnectionState::Reconnecting => spec_change(
                    old(self).spec_state(),
                    ConnectionState::Connecting,
                    "retry",
                ),
                _ => None,
            },
    {
        let origin = self.state;
        let c = match origin {
            ConnectionState::Created | ConnectionState::Discovering => self.set_state(
                ConnectionState::Discovering,
                "discover",
            ),
            ConnectionState::Reconnecting => self.set_state(ConnectionState::Connecting, "retry"),
            _ => None,
        };
        (origin, c)
    }

    /// Report a discover attempt that started in `origin`. Success stores the discovered
    /// options, connects and resets the backoff. Failure moves back to `Reconnecting` (when
    /// the attempt was a reconnect) or `Discovering`, returns the backoff to sleep and doubles
    /// it (capped). The flag says whether this failure is the first since the last success.
    pub fn after_discover(
        &mut self,
        origin: ConnectionState,
        discovered: Option<NodeOptions>,
    ) -> (r: (Option<StateChange>, Option<u64>, bool))
        requires
            old(self).wf(),
        ensures
            final(self).wf(),
            match discovered {
                Some(opts) => {
                    &&& final(self).spec_options() == opts@
                    &&& final(self).spec_state() == spec_after_set(
                        old(self).spec_state(),
                        ConnectionState::Connected,
                    )
                    &&& final(self).spec_backoff() == SESSION_BACKOFF_INITIAL_MS
                    &&& !final(self).spec_fail_logged()
                    &&& r.1 is None
                    &&& !r.2
                    &&& r.0 == spec_change(old(self).spec_state(), ConnectionState::Connected, "discover ok")
                },
                None => {
                    &&& final(self).spec_options() == old(self).spec_options()
                    &&& final(self).spec_state() == spec_after_set(
                        old(self).spec_state(),
                        if origin == ConnectionState::Reconnecting {
                            ConnectionState::Reconnecting
                        } else {
                            ConnectionState::Discovering
                        },
                    )
                    &&& r.1 == Some(old(self).spec_backoff())
                    &&& final(self).spec_backoff() == spec_next_backoff(old(self).spec_backoff())
                    &&& final(self).spec_fail_logged()
                    &&& r.2 == !old(self).spec_fail_logged()
                    &&& r.0 == spec_change(
                        old(self).spec_state(),
                        if origin == ConnectionState::Reconnecting {
                            ConnectionState::Reconnecting
                        } else {
                            ConnectionState::Discovering
                        },
                        "discover failed",
                    )
                },
            },
    {
        match discovered {
            Some(opts) => {
                self.options = opts;
                self.discover_fail_logged = false;
                let c = self.set_state(ConnectionState::Connected, "discover ok");
                self.backoff_ms = SESSION_BACKOFF_INITIAL_MS;
                (c, None, false)
            },
            None => {
                let first = !self.discover_fail_logged;
                self.discover_fail_logged = true;
                let c = if origin == ConnectionState::Reconnecting {
                    self.set_state(ConnectionState::Reconnecting, "discover failed")
                } else {
                    self.set_state(ConnectionState::Discovering, "discover failed")
                };
                let wait = self.backoff_ms;
                self.backoff_ms = next_backoff(self.backoff_ms);
                (c, Some(wait), first)
            },
        }
    }

    /// Report a liveness probe of a connected session. Success refreshes the options; failure
    /// moves to `Reconnecting` with the backoff reset.
    pub fn after_liveness(&mut self, discovered: Option<NodeOptions>) -> (c: Option<StateChange>)
        requires
            old(self).wf(),
        ensures
            final(self).wf(),
            match discovered {
                Some(opts) => {
                    &&& final(self).spec_options() == opts@
                    &&& final(self).spec_state() == old(self).spec_state()
                    &&& final(self).spec_backoff() == old(self).spec_backoff()
                    &&& !final(self).spec_fail_logged()
                    &&& c is None
                },
                None => {
                    &&& final(self).spec_options() == old(self).spec_options()
                    &&& final(self).spec_state() == spec_after_set(
                        old(self).spec_state(),
                        ConnectionState::Reconnecting,
                    )
                    &&& final(self).spec_backoff() == SESSION_BACKOFF_INITIAL_MS
                    &&& c == spec_change(old(self).spec_state(), ConnectionState::Reconnecting, "liveness lost")
                },
            },
    {
        match discovered {
            Some(opts) => {
                self.options = opts;
                self.discover_fail_logged = false;
                None
            },
            None => {
                let c = self.set_state(ConnectionState::Reconnecting, "liveness lost");
                self.backoff_ms = SESSION_BACKOFF_INITIAL_MS;
                c
            },
        }
    }

    /// Final transition of the session thread, or an explicit shutdown.
    pub fn shutdown(&mut self, reason: &'static str) -> (c: Option<StateChange>)
        requires
            old(self).wf(),
        ensures
            final(self).wf(),
            final(self).spec_state() == ConnectionState::Shutdown,
            c is Some <==> old(self).spec_state() != ConnectionState::Shutdown,
            c == spec_change(old(self).spec_state(), ConnectionState::Shutdown, reason),
    {
        self.set_state(ConnectionState::Shutdown, reason)
    }
}

/// Once a session is shut down, no request moves it out of `Shutdown`.
pub proof fn law_shutdown_is_final(next: ConnectionState)
    ensures
        spec_after_set(ConnectionState::Shutdown, next) == ConnectionState::Shutdown,
{
}

/// The discover backoff never leaves `[initial, max]` and never decreases while attempts
/// keep failing.
pub proof fn law_backoff_bounded(b: u64)
    requires
        SESSION_BACKOFF_INITIAL_MS <= b <= SESSION_BACKOFF_MAX_MS,
    ensures
        SESSION_BACKOFF_INITIAL_MS <= spec_next_backoff(b) <= SESSION_BACKOFF_MAX_MS,
        b <= spec_next_backoff(b),
{
}

} // verus!
