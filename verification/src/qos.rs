//! Topic / RPC QoS profile (KeepLast depth) and its socket high-water-mark mapping.
//!
//! Only KeepLast(N) is modelled: on WebSocket subscriptions it sizes the
//! server→client queue (drop oldest on full); on ZeroMQ sockets the depth becomes
//! the send and receive high-water mark.
use vstd::prelude::*;

verus! {

/// ZeroMQ send / receive high-water marks of one socket.
#[derive(Debug, Clone, Copy, PartialEq, Eq, Structural)]
pub struct HighWaterMark {
    pub snd: i32,
    pub rcv: i32,
}

impl HighWaterMark {
    /// Marks with the given send and receive limits.
    pub fn new(snd: i32, rcv: i32) -> (h: Self)
        ensures
            h.snd == snd,
            h.rcv == rcv,
    {
        HighWaterMark { snd, rcv }
    }

    /// Default marks of topic (PUB/SUB) sockets: 8 / 8.
    pub fn stream() -> (h: Self)
        ensures
            h.snd == STREAM_HWM,
            h.rcv == STREAM_HWM,
    {
        HighWaterMark { snd: STREAM_HWM, rcv: STREAM_HWM }
    }
}

/// Depth of the default topic high-water mark.
pub const STREAM_HWM: i32 = 8;

/// Overflow policy for a WebSocket subscription's pending server messages.
#[derive(Debug, Clone, Copy, PartialEq, Eq, Structural)]
pub enum SubscriptionOverflowPolicy {
    /// Explicit wire policy 0.
    DropNewest,
    /// The default.
    DropOldest,
    /// Wire policy 2; equivalent to KeepLast(1).
    Latest,
}

impl SubscriptionOverflowPolicy {
    /// Decode the wire byte: 0, 1, 2 name the three policies, anything else is unknown.
    pub fn from_wire(value: u8) -> (r: Option<Self>)
        ensures
            value == 0 ==> r == Some(SubscriptionOverflowPolicy::DropNewest),
            value == 1 ==> r == Some(SubscriptionOverflowPolicy::DropOldest),
            value == 2 ==> r == Some(SubscriptionOverflowPolicy::Latest),
            value > 2 ==> r is None,
    {
        match value {
            0 => Some(SubscriptionOverflowPolicy::DropNewest),
            1 => Some(SubscriptionOverflowPolicy::DropOldest),
            2 => Some(SubscriptionOverflowPolicy::Latest),
            _ => None,
        }
    }
}

impl Default for SubscriptionOverflowPolicy {
    fn default() -> (r: Self)
        ensures
            r == SubscriptionOverflowPolicy::DropOldest,
    {
        SubscriptionOverflowPolicy::DropOldest
    }
}

/// KeepLast(N) history depth.
#[derive(Debug, Clone, Copy, PartialEq, Eq, Structural)]
pub struct QosProfile {
    depth: i32,
}

impl QosProfile {
    /// The depth as a mathematical value.
    pub closed spec fn spec_depth(self) -> i32 {
        self.depth
    }

    /// ROS 2–style `KeepLast(depth)`.
    pub fn keep_last(depth: i32) -> (q: Self)
        ensures
            q.spec_depth() == depth,
    {
        QosProfile { depth }
    }

    /// History depth (KeepLast N).
    pub fn depth(self) -> (d: i32)
        ensures
            d == self.spec_depth(),
    {
        self.depth
    }

    /// ZeroMQ high-water marks for this profile: send and receive both equal the depth.
    pub fn to_hwm(self) -> (h: HighWaterMark)
        ensures
            h.snd == self.spec_depth(),
            h.rcv == self.spec_depth(),
    {
        HighWaterMark::new(self.depth, self.depth)
    }

    /// The default profile: KeepLast of the default topic high-water mark (8).
    pub fn default_profile() -> (q: Self)
        ensures
            q.spec_depth() == STREAM_HWM,
    {
        QosProfile::keep_last(STREAM_HWM)
    }
}

impl Default for QosProfile {
    fn default() -> (q: Self)
        ensures
            q.spec_depth() == STREAM_HWM,
    {
        QosProfile::default_profile()
    }
}

/// rclrs-style name of the default profile.
pub fn qos_profile_default() -> (q: QosProfile)
    ensures
        q.spec_depth() == STREAM_HWM,
{
    QosProfile::default_profile()
}

/// Server subscribe queue when a subscribe request leaves the depth at 0.
pub const WS_SUBSCRIBE_QUEUE_DEFAULT: i32 = 64;

/// Largest WebSocket subscribe queue.
pub const WS_SUBSCRIBE_QUEUE_MAX: usize = 1_048_576;

/// WebSocket subscription queue capacity for a requested depth.
pub open spec fn spec_ws_subscribe_queue_capacity(qos_depth: int) -> int {
    if qos_depth <= 0 {
        WS_SUBSCRIBE_QUEUE_DEFAULT as int
    } else if qos_depth > WS_SUBSCRIBE_QUEUE_MAX {
        WS_SUBSCRIBE_QUEUE_MAX as int
    } else {
        qos_depth
    }
}

/// Depth → bounded WebSocket subscription capacity: a depth `<= 0` gives the default 64,
/// a positive depth is clamped to `1 ..= 1_048_576`.
pub fn ws_subscribe_queue_capacity(qos_depth: i32) -> (c: usize)
    ensures
        c == spec_ws_subscribe_queue_capacity(qos_depth as int),
        1 <= c <= WS_SUBSCRIBE_QUEUE_MAX,
{
    if qos_depth <= 0 {
        WS_SUBSCRIBE_QUEUE_DEFAULT as usize
    } else {
        let d = qos_depth as usize;
        if d > WS_SUBSCRIBE_QUEUE_MAX {
            WS_SUBSCRIBE_QUEUE_MAX
        } else {
            d
        }
    }
}

} // verus!
