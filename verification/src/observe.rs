//! Bridge route rows for the startup route dump, the periodic console snapshot and the
//! idle warning.
use std::sync::Arc;
use vstd::prelude::*;
use crate::bridge::{spec_direction_label, spec_qos_label, Direction, TopicQos};
use crate::text::{concat2, decimal, pad_right, pad_right_str, u64_to_decimal};

verus! {

/// Seconds without traffic before a watched route is reported idle.
pub const IDLE_GRACE_SECS: u64 = 15;
/// Interval of the console snapshot, in milliseconds.
pub const SNAPSHOT_INTERVAL_MS: u64 = 1000;

/// Traffic counters of one bridge route.
#[derive(Debug, Clone, Copy, PartialEq, Eq, Structural)]
pub struct RouteHealth {
    pub rx: u64,
    pub tx: u64,
    pub convert_fail: u64,
    pub decode_fail: u64,
    pub publish_fail: u64,
    /// Unix milliseconds of the last received message (0: none yet).
    pub last_rx_ms: u64,
}

impl RouteHealth {
    /// No traffic yet.
    pub fn new() -> (h: Self)
        ensures
            h.rx == 0 && h.tx == 0 && h.convert_fail == 0 && h.decode_fail == 0 && h.publish_fail
                == 0 && h.last_rx_ms == 0,
    {
        RouteHealth { rx: 0, tx: 0, convert_fail: 0, decode_fail: 0, publish_fail: 0, last_rx_ms: 0 }
    }

    /// A route is idle when it is enabled, its grace period has elapsed and nothing was
    /// received.
    pub fn is_idle(&self, enabled: bool, grace_elapsed: bool) -> (r: bool)
        ensures
            r == (enabled && grace_elapsed && self.rx == 0),
    {
        enabled && grace_elapsed && self.rx == 0
    }

    /// Count a received message at `now_ms`.
    pub fn record_rx(&mut self, now_ms: u64)
        ensures
            final(self).rx == if old(self).rx == u64::MAX { u64::MAX } else { (old(self).rx + 1) as u64 },
            final(self).last_rx_ms == now_ms,
            final(self).tx == old(self).tx,
    {
        if self.rx < u64::MAX {
            self.rx = self.rx + 1;
        }
        self.last_rx_ms = now_ms;
    }

    /// Count a forwarded message.
    pub fn record_tx(&mut self)
        ensures
            final(self).tx == if old(self).tx == u64::MAX { u64::MAX } else { (old(self).tx + 1) as u64 },
            final(self).rx == old(self).rx,
    {
        if self.tx < u64::MAX {
            self.tx = self.tx + 1;
        }
    }
}

/// One route row as the console receives it.
#[derive(Debug, Clone)]
pub struct BridgeRoute {
    pub kind: String,
    pub direction: String,
    pub ros_name: String,
    pub bus_name: String,
    pub msg_type: String,
    pub ros_qos: String,
    pub bus_qos: String,
    pub lazy: bool,
    pub enabled: bool,
    pub rx: u64,
    pub tx: u64,
    pub convert_fail: u64,
    pub decode_fail: u64,
    pub publish_fail: u64,
    pub last_rx_ms: u64,
    pub idle: bool,
}

/// Console snapshot of one bridge.
#[derive(Debug, Clone)]
pub struct BridgeSnapshot {
    pub bridge_id: String,
    pub bridge_name: String,
    pub routes: Vec<BridgeRoute>,
}

/// Console event announcing an idle route.
#[derive(Debug, Clone)]
pub struct ConsoleEvent {
    pub id: String,
    pub ts: u64,
    pub level: String,
    pub source: String,
    pub message: String,
}

/// Static route row plus its live health.
pub struct ConsoleRoute {
    pub kind: &'static str,
    pub direction: Direction,
    pub ros_name: String,
    pub bus_name: String,
    pub msg_type: String,
    pub ros_qos: String,
    pub bus_qos: String,
    pub lazy: bool,
    pub watch_idle: bool,
    pub health: Arc<RouteHealth>,
}

/// The log line of a route with these fields.
pub open spec fn spec_log_line(r: ConsoleRoute) -> Seq<char> {
    pad_right(r.kind@, 7) + " "@ + pad_right(spec_direction_label(r.direction), 8) + " "@
        + r.ros_name@ + " → "@ + r.bus_name@ + "  "@ + (if r.msg_type@.len() == 0 {
        "-"@
    } else {
        r.msg_type@
    }) + "  ros="@ + r.ros_qos@ + "  bus="@ + r.bus_qos@ + (if r.lazy {
        "  lazy"@
    } else {
        ""@
    })
}

/// The idle warning of a route.
pub open spec fn spec_idle_message(r: ConsoleRoute) -> Seq<char> {
    "no traffic on "@ + spec_direction_label(r.direction) + " "@ + r.ros_name@ + " for "@
        + decimal(IDLE_GRACE_SECS as nat)
        + "s; possible wrong direction or ROS QoS mismatch"@
}

/// The console row of a route.
pub open spec fn spec_to_proto(r: ConsoleRoute, enabled: bool, grace_elapsed: bool, p: BridgeRoute) -> bool {
    &&& p.kind@ == r.kind@
    &&& p.direction@ == spec_direction_label(r.direction)
    &&& p.ros_name@ == r.ros_name@
    &&& p.bus_name@ == r.bus_name@
    &&& p.msg_type@ == r.msg_type@
    &&& p.ros_qos@ == r.ros_qos@
    &&& p.bus_qos@ == r.bus_qos@
    &&& p.lazy == r.lazy
    &&& p.enabled == enabled
    &&& p.rx == r.health.rx
    &&& p.tx == r.health.tx
    &&& p.convert_fail == r.health.convert_fail
    &&& p.decode_fail == r.health.decode_fail
    &&& p.publish_fail == r.health.publish_fail
    &&& p.last_rx_ms == r.health.last_rx_ms
    &&& p.idle == (r.watch_idle && enabled && grace_elapsed && r.health.rx == 0)
}

impl ConsoleRoute {
    /// A topic route row (watched for idleness).
    pub fn topic(
        ros_name: &str,
        bus_name: &str,
        direction: Direction,
        msg_type: &str,
        ros_qos: TopicQos,
        bus_qos: TopicQos,
        lazy: bool,
        health: Arc<RouteHealth>,
    ) -> (r: Self)
        ensures
            r.kind@ == "topic"@,
            r.direction == direction,
            r.ros_name@ == ros_name@,
            r.bus_name@ == bus_name@,
            r.msg_type@ == msg_type@,
            r.ros_qos@ == spec_qos_label(ros_qos),
            r.bus_qos@ == spec_qos_label(bus_qos),
            r.lazy == lazy,
            r.watch_idle,
            r.health == health,
    {
        ConsoleRoute {
            kind: "topic",
            direction,
            ros_name: ros_name.to_owned(),
            bus_name: bus_name.to_owned(),
            msg_type: msg_type.to_owned(),
            ros_qos: ros_qos.console_label(),
            bus_qos: bus_qos.console_label(),
            lazy,
            watch_idle: true,
            health,
        }
    }

    /// A service or action route row (`kind` names which); never lazy, not watched.
    pub fn rpc(
        kind: &'static str,
        ros_name: &str,
        bus_name: &str,
        direction: Direction,
        msg_type: &str,
        ros_qos: TopicQos,
        bus_qos: TopicQos,
    ) -> (r: Self)
        ensures
            r.kind == kind,
            r.direction == direction,
            r.ros_name@ == ros_name@,
            r.bus_name@ == bus_name@,
            r.msg_type@ == msg_type@,
            r.ros_qos@ == spec_qos_label(ros_qos),
            r.bus_qos@ == spec_qos_label(bus_qos),
            !r.lazy,
            !r.watch_idle,
            *r.health == RouteHealth::new_spec(),
    {
        ConsoleRoute {
            kind,
            direction,
            ros_name: ros_name.to_owned(),
            bus_name: bus_name.to_owned(),
            msg_type: msg_type.to_owned(),
            ros_qos: ros_qos.console_label(),
            bus_qos: bus_qos.console_label(),
            lazy: false,
            watch_idle: false,
            health: Arc::new(RouteHealth::new()),
        }
    }

    /// Startup log line: kind, direction, names, type (`-` when empty), QoS labels, lazy flag.
    pub fn log_line(&self) -> (s: String)
        ensures
            s@ == spec_log_line(*self),
    {
        let mut s = pad_right_str(self.kind, 7);
        s.append(" ");
        let d = pad_right_str(self.direction.console_label(), 8);
        s.append(d.as_str());
        s.append(" ");
        s.append(self.ros_name.as_str());
        s.append(" → ");
        s.append(self.bus_name.as_str());
        s.append("  ");
        if self.msg_type.as_str().unicode_len() == 0 {
            s.append("-");
        } else {
            s.append(self.msg_type.as_str());
        }
        s.append("  ros=");
        s.append(self.ros_qos.as_str());
        s.append("  bus=");
        s.append(self.bus_qos.as_str());
        if self.lazy {
            s.append("  lazy");
        } else {
            proof {
                reveal_strlit("");
            }
            assert(s@ + ""@ =~= s@);
        }
        s
    }

    /// Console row of this route; `idle` only for watched routes that are enabled, past their
    /// grace period and without received traffic.
    pub fn to_proto(&self, enabled: bool, grace_elapsed: bool) -> (p: BridgeRoute)
        ensures
            spec_to_proto(*self, enabled, grace_elapsed, p),
    {
        let idle = self.watch_idle && self.health.is_idle(enabled, grace_elapsed);
        BridgeRoute {
            kind: self.kind.to_owned(),
            direction: self.direction.console_label().to_owned(),
            ros_name: self.ros_name.clone(),
            bus_name: self.bus_name.clone(),
            msg_type: self.msg_type.clone(),
            ros_qos: self.ros_qos.clone(),
            bus_qos: self.bus_qos.clone(),
            lazy: self.lazy,
            enabled,
            rx: self.health.rx,
            tx: self.health.tx,
            convert_fail: self.health.convert_fail,
            decode_fail: self.health.decode_fail,
            publish_fail: self.health.publish_fail,
            last_rx_ms: self.health.last_rx_ms,
            idle,
        }
    }

    /// Warning text for a route without traffic.
    pub fn idle_message(&self) -> (s: String)
        ensures
            s@ == spec_idle_message(*self),
    {
        let mut s = String::from_str("no traffic on ");
        s.append(self.direction.console_label());
        s.append(" ");
        s.append(self.ros_name.as_str());
        s.append(" for ");
        let g = u64_to_decimal(IDLE_GRACE_SECS);
        s.append(g.as_str());
        s.append("s; possible wrong direction or ROS QoS mismatch");
        s
    }
}

impl RouteHealth {
    pub open spec fn new_spec() -> RouteHealth {
        RouteHealth { rx: 0, tx: 0, convert_fail: 0, decode_fail: 0, publish_fail: 0, last_rx_ms: 0 }
    }
}

/// Header line of the route table.
pub open spec fn spec_table_header(bridge_name: Seq<char>) -> Seq<char> {
    "ros2_bridge '"@ + bridge_name + "' routes:"@
}

/// Route table text: the header, then one indented line per route, joined by newlines.
pub open spec fn spec_route_table(bridge_name: Seq<char>, routes: Seq<ConsoleRoute>) -> Seq<char>
    decreases routes.len(),
{
    if routes.len() == 0 {
        spec_table_header(bridge_name)
    } else {
        spec_route_table(bridge_name, routes.drop_last()) + "\n  "@ + spec_log_line(routes.last())
    }
}

/// Text of the startup route dump.
pub fn route_table(bridge_name: &str, routes: &Vec<ConsoleRoute>) -> (s: String)
    ensures
        s@ == spec_route_table(bridge_name@, routes@),
{
    let mut s = String::from_str("ros2_bridge '");
    s.append(bridge_name);
    s.append("' routes:");
    let mut i: usize = 0;
    while i < routes.len()
        invariant
            i <= routes@.len(),
            s@ == spec_route_table(bridge_name@, routes@.subrange(0, i as int)),
        decreases routes@.len() - i,
    {
        let line = routes[i].log_line();
        s.append("\n  ");
        s.append(line.as_str());
        proof {
            let sub = routes@.subrange(0, i + 1);
            assert(sub.drop_last() =~= routes@.subrange(0, i as int));
            assert(sub.last() == routes@[i as int]);
        }
        i = i + 1;
    }
    assert(routes@.subrange(0, routes@.len() as int) =~= routes@);
    s
}

/// Snapshot of a bridge: one console row per route, `enabled[i]` saying whether route `i`
/// currently forwards.
pub fn snapshot(
    bridge_id: &str,
    bridge_name: &str,
    routes: &Vec<ConsoleRoute>,
    enabled: &Vec<bool>,
    grace_elapsed: bool,
) -> (snap: BridgeSnapshot)
    requires
        enabled@.len() == routes@.len(),
    ensures
        snap.bridge_id@ == bridge_id@,
        snap.bridge_name@ == bridge_name@,
        snap.routes@.len() == routes@.len(),
        forall|i: int|
            0 <= i < routes@.len() ==> spec_to_proto(
                #[trigger] routes@[i],
                enabled@[i],
                grace_elapsed,
                snap.routes@[i],
            ),
{
    let mut rows: Vec<BridgeRoute> = Vec::new();
    let mut i: usize = 0;
    while i < routes.len()
        invariant
            i <= routes@.len(),
            enabled@.len() == routes@.len(),
            rows@.len() == i,
            forall|j: int|
                0 <= j < i ==> spec_to_proto(
                    #[trigger] routes@[j],
                    enabled@[j],
                    grace_elapsed,
                    rows@[j],
                ),
        decreases routes@.len() - i,
    {
        rows.push(routes[i].to_proto(enabled[i], grace_elapsed));
        i = i + 1;
    }
    BridgeSnapshot {
        bridge_id: bridge_id.to_owned(),
        bridge_name: bridge_name.to_owned(),
        routes: rows,
    }
}

/// Snapshot of a bridge, asking `enabled` once per route, in route order,
/// whether the route currently forwards: each row is its route's console row
/// with the answer for that route.
pub fn snapshot_with<F>(bridge_id: &str, bridge_name: &str, routes: &Vec<ConsoleRoute>, enabled: F, grace_elapsed: bool) -> (snap:
    BridgeSnapshot)
    where
        F: Fn(&ConsoleRoute) -> bool,
    requires
        forall|r: &ConsoleRoute| enabled.requires((r,)),
    ensures
        snap.bridge_id@ == bridge_id@,
        snap.bridge_name@ == bridge_name@,
        snap.routes@.len() == routes@.len(),
        forall|i: int|
            0 <= i < routes@.len() ==> enabled.ensures((&routes@[i],), snap.routes@[i].enabled) && spec_to_proto(
                #[trigger] routes@[i],
                snap.routes@[i].enabled,
                grace_elapsed,
                snap.routes@[i],
            ),
{
    let mut flags: Vec<bool> = Vec::new();
    let mut i: usize = 0;
    while i < routes.len()
        invariant
            i <= routes@.len(),
            flags@.len() == i,
            forall|r: &ConsoleRoute| enabled.requires((r,)),
            forall|j: int| 0 <= j < i ==> enabled.ensures((&routes@[j],), #[trigger] flags@[j]),
        decreases routes@.len() - i,
    {
        let b = enabled(&routes[i]);
        flags.push(b);
        i = i + 1;
    }
    snapshot(bridge_id, bridge_name, routes, &flags, grace_elapsed)
}

/// Idle warning event `bridge-idle-{event_id}` from `ros2_bridge/{bridge_name}` at `ts`.
pub fn idle_event(bridge_name: &str, event_id: u64, ts: u64, route: &ConsoleRoute) -> (e: ConsoleEvent)
    ensures
        e.id@ == "bridge-idle-"@ + decimal(event_id as nat),
        e.ts == ts,
        e.level@ == "WARN"@,
        e.source@ == "ros2_bridge/"@ + bridge_name@,
        e.message@ == spec_idle_message(*route),
{
    let n = u64_to_decimal(event_id);
    ConsoleEvent {
        id: concat2("bridge-idle-", n.as_str()),
        ts,
        level: "WARN".to_owned(),
        source: concat2("ros2_bridge/", bridge_name),
        message: route.idle_message(),
    }
}

} // verus!
