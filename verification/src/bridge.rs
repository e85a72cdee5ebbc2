//! ROS 2 bridge routing vocabulary and the validation of a bridge configuration.
use vstd::prelude::*;
use crate::errors::{BusError, ErrorView};
use crate::text::{concat2, decimal, str_eq, u64_to_decimal};
use crate::transports::DEFAULT_API_PORT;

verus! {

/// Rendering of a string as Rust's `{:?}` writes it (quoted, with escapes).
pub uninterp spec fn str_debug(s: Seq<char>) -> Seq<char>;

/// `format!("{:?}", s)` for a string slice.
///
/// Trusted: calls std's `Debug` formatting of `str`; the contract only names the result as
/// a function of the characters, it does not spell out Rust's escaping rules.
#[verifier::external_body]
pub(crate) fn debug_str(s: &str) -> (r: String)
    ensures
        r@ == str_debug(s@),
{
    format!("{:?}", s)
}

/// Which way a bridge route carries traffic.
#[derive(Debug, Clone, Copy, PartialEq, Eq, Structural)]
pub enum Direction {
    Ros2ToBus,
    BusToRos2,
}

pub open spec fn spec_direction_label(d: Direction) -> Seq<char> {
    match d {
        Direction::Ros2ToBus => "ros→bus"@,
        Direction::BusToRos2 => "bus→ros"@,
    }
}

impl Direction {
    /// Arrow label shown in the console and logs.
    pub fn console_label(self) -> (r: &'static str)
        ensures
            r@ == spec_direction_label(self),
    {
        match self {
            Direction::Ros2ToBus => "ros→bus",
            Direction::BusToRos2 => "bus→ros",
        }
    }
}

/// Reliability of a bridge route endpoint.
#[derive(Debug, Clone, Copy, PartialEq, Eq, Structural)]
pub enum Reliability {
    Reliable,
    BestEffort,
}

/// KeepLast depth and reliability of one side of a topic route.
#[derive(Debug, Clone, Copy, PartialEq, Eq, Structural)]
pub struct TopicQos {
    pub depth: u32,
    pub reliability: Reliability,
}

pub open spec fn spec_qos_label(q: TopicQos) -> Seq<char> {
    "keep_last("@ + decimal(q.depth as nat) + ")/"@ + match q.reliability {
        Reliability::Reliable => "reliable"@,
        Reliability::BestEffort => "best_effort"@,
    }
}

impl TopicQos {
    /// KeepLast(`depth`), reliable.
    pub fn keep_last(depth: u32) -> (q: Self)
        ensures
            q.depth == depth,
            q.reliability == Reliability::Reliable,
    {
        TopicQos { depth, reliability: Reliability::Reliable }
    }

    /// Same depth, best effort.
    pub fn best_effort(self) -> (q: Self)
        ensures
            q.depth == self.depth,
            q.reliability == Reliability::BestEffort,
    {
        TopicQos { depth: self.depth, reliability: Reliability::BestEffort }
    }

    /// Same depth, reliable.
    pub fn reliable(self) -> (q: Self)
        ensures
            q.depth == self.depth,
            q.reliability == Reliability::Reliable,
    {
        TopicQos { depth: self.depth, reliability: Reliability::Reliable }
    }

    /// Label shown in the console, e.g. `keep_last(10)/best_effort`.
    pub fn console_label(self) -> (r: String)
        ensures
            r@ == spec_qos_label(self),
    {
        let mut r = String::from_str("keep_last(");
        let d = u64_to_decimal(self.depth as u64);
        r.append(d.as_str());
        r.append(")/");
        match self.reliability {
            Reliability::Reliable => r.append("reliable"),
            Reliability::BestEffort => r.append("best_effort"),
        }
        r
    }
}

/// Default transport of the bridge's bus side.
pub fn default_transport() -> (r: String)
    ensures
        r@ == "tcp"@,
{
    "tcp".to_owned()
}

/// Default broker host of the bridge's bus side.
pub fn default_host() -> (r: String)
    ensures
        r@ == "localhost"@,
{
    "localhost".to_owned()
}

/// Default discover URL: the API on the local host.
pub fn default_api_url() -> (r: String)
    ensures
        r@ == "http://127.0.0.1:"@ + decimal(DEFAULT_API_PORT as nat),
{
    let p = u64_to_decimal(DEFAULT_API_PORT as u64);
    concat2("http://127.0.0.1:", p.as_str())
}

/// Default direction of a topic route.
pub fn default_direction() -> (r: String)
    ensures
        r@ == "ros2_to_bus"@,
{
    "ros2_to_bus".to_owned()
}

/// Default direction of a service or action route.
pub fn default_service_direction() -> (r: String)
    ensures
        r@ == "ros2_to_bus"@,
{
    "ros2_to_bus".to_owned()
}

/// Which kind of route a direction string belongs to.
#[derive(Debug, Clone, Copy, PartialEq, Eq, Structural)]
pub enum RouteKind {
    Topic,
    Service,
    Action,
}

pub open spec fn spec_kind_word(k: RouteKind) -> Seq<char> {
    match k {
        RouteKind::Topic => "topic"@,
        RouteKind::Service => "service"@,
        RouteKind::Action => "action"@,
    }
}

/// Result of parsing a direction string for a route of kind `k`.
pub open spec fn spec_parse_direction(k: RouteKind, s: Seq<char>) -> Result<Direction, ErrorView> {
    if s == "ros2_to_bus"@ {
        Ok(Direction::Ros2ToBus)
    } else if s == "bus_to_ros2"@ {
        Ok(Direction::BusToRos2)
    } else if s == "both"@ {
        Err(
            ErrorView::Protocol(
                spec_kind_word(k)
                    + " direction must be ros2_to_bus | bus_to_ros2 (both is not supported)"@,
            ),
        )
    } else {
        Err(
            ErrorView::Protocol(
                match k {
                    RouteKind::Topic => "direction must be ros2_to_bus | bus_to_ros2, got "@,
                    _ => spec_kind_word(k) + " direction must be ros2_to_bus | bus_to_ros2, got "@,
                } + str_debug(s),
            ),
        )
    }
}

pub open spec fn dir_result_view(r: Result<Direction, BusError>) -> Result<Direction, ErrorView> {
    match r {
        Ok(d) => Ok(d),
        Err(e) => Err(e@),
    }
}

/// Direction string of a route of kind `k`.
pub fn parse_direction_of_kind(k: RouteKind, s: &str) -> (r: Result<Direction, BusError>)
    ensures
        dir_result_view(r) == spec_parse_direction(k, s@),
{
    if str_eq(s, "ros2_to_bus") {
        return Ok(Direction::Ros2ToBus);
    }
    if str_eq(s, "bus_to_ros2") {
        return Ok(Direction::BusToRos2);
    }
    let word = match k {
        RouteKind::Topic => "topic",
        RouteKind::Service => "service",
        RouteKind::Action => "action",
    };
    if str_eq(s, "both") {
        return Err(
            BusError::Protocol(
                concat2(
                    word,
                    " direction must be ros2_to_bus | bus_to_ros2 (both is not supported)",
                ),
            ),
        );
    }
    let q = debug_str(s);
    let mut m = match k {
        RouteKind::Topic => String::from_str("direction must be ros2_to_bus | bus_to_ros2, got "),
        _ => concat2(word, " direction must be ros2_to_bus | bus_to_ros2, got "),
    };
    m.append(q.as_str());
    Err(BusError::Protocol(m))
}

/// Direction of a topic route (`both` is refused).
pub fn parse_direction(s: &str) -> (r: Result<Direction, BusError>)
    ensures
        dir_result_view(r) == spec_parse_direction(RouteKind::Topic, s@),
{
    parse_direction_of_kind(RouteKind::Topic, s)
}

/// Direction of a service route (`both` is refused).
pub fn parse_service_direction(s: &str) -> (r: Result<Direction, BusError>)
    ensures
        dir_result_view(r) == spec_parse_direction(RouteKind::Service, s@),
{
    parse_direction_of_kind(RouteKind::Service, s)
}

/// Direction of an action route (`both` is refused).
pub fn parse_action_direction(s: &str) -> (r: Result<Direction, BusError>)
    ensures
        dir_result_view(r) == spec_parse_direction(RouteKind::Action, s@),
{
    parse_direction_of_kind(RouteKind::Action, s)
}

} // verus!
