//! Validation of a ROS 2 bridge configuration document into a routing plan.
//!
//! The document (YAML) is parsed by the caller into [`BridgeConfig`]; this module checks it
//! the way the bridge builder does and produces the plan the builder executes.
use vstd::prelude::*;
use crate::bridge::{
    debug_str, default_api_url, parse_direction_of_kind, spec_parse_direction, str_debug,
    Direction, RouteKind,
};
use crate::errors::{BusError, ErrorView};
use crate::node_options::{clone_opt, opt_view};
use crate::text::{concat2, decimal, str_eq};
use crate::transports::DEFAULT_API_PORT;

verus! {

/// `discover:` section of `robot_bus:`.
#[derive(Debug)]
pub struct DiscoverSection {
    pub api_url: String,
    /// Discover timeout in milliseconds.
    pub timeout_ms: u64,
    pub broker_id: Option<String>,
}

/// `robot_bus:` section.
#[derive(Debug)]
pub struct RobotBusSection {
    pub transport: String,
    pub host: String,
    pub ipc_path: Option<String>,
    pub discover: Option<DiscoverSection>,
}

/// One `routes[]`, `services[]` or `actions[]` entry.
#[derive(Debug)]
pub struct RouteSection {
    pub ros_name: String,
    pub bus_name: String,
    pub msg_type: String,
    pub direction: String,
}

/// A parsed bridge configuration document.
#[derive(Debug)]
pub struct BridgeConfig {
    pub robot_bus: Option<RobotBusSection>,
    pub routes: Vec<RouteSection>,
    pub services: Vec<RouteSection>,
    pub actions: Vec<RouteSection>,
}

/// How the bridge reaches the bus.
#[derive(Debug)]
pub enum BusTarget {
    Tcp { host: String },
    Ipc { path: Option<String> },
    Discover { api_url: String, timeout_ms: Option<u64>, broker_id: Option<String> },
}

/// One validated route.
#[derive(Debug)]
pub struct RoutePlan {
    pub ros_name: String,
    pub bus_name: String,
    pub msg_type: String,
    pub direction: Direction,
}

/// A validated configuration.
#[derive(Debug)]
pub struct BridgePlan {
    pub name: String,
    pub target: BusTarget,
    pub routes: Vec<RoutePlan>,
    pub services: Vec<RoutePlan>,
    pub actions: Vec<RoutePlan>,
}

pub const EMPTY_CONFIG: &'static str =
    "yaml must include at least one routes[], services[], or actions[] entry";

/// Error of the first entry (in order) whose direction does not parse.
pub open spec fn first_direction_error(k: RouteKind, s: Seq<RouteSection>) -> Option<ErrorView>
    decreases s.len(),
{
    if s.len() == 0 {
        None
    } else {
        match spec_parse_direction(k, s[0].direction@) {
            Err(e) => Some(e),
            Ok(_) => first_direction_error(k, s.drop_first()),
        }
    }
}

/// The plan entry matches the configuration entry, with its parsed direction.
pub open spec fn route_planned(k: RouteKind, c: RouteSection, p: RoutePlan) -> bool {
    &&& p.ros_name@ == c.ros_name@
    &&& p.bus_name@ == c.bus_name@
    &&& p.msg_type@ == c.msg_type@
    &&& spec_parse_direction(k, c.direction@) == Ok::<Direction, ErrorView>(p.direction)
}

pub open spec fn routes_planned(k: RouteKind, c: Seq<RouteSection>, p: Seq<RoutePlan>) -> bool {
    &&& p.len() == c.len()
    &&& forall|i: int| 0 <= i < c.len() ==> route_planned(k, #[trigger] c[i], p[i])
}

/// Transport named by the `robot_bus:` section (the default section is tcp to localhost).
pub open spec fn spec_transport(rb: Option<RobotBusSection>) -> Seq<char> {
    match rb {
        Some(rb) => rb.transport@,
        None => "tcp"@,
    }
}

pub open spec fn transport_known(t: Seq<char>) -> bool {
    t == "tcp"@ || t == "ipc"@ || t == "discover"@
}

/// Error for an unknown transport.
pub open spec fn spec_transport_error(t: Seq<char>) -> ErrorView {
    ErrorView::Protocol("robot_bus.transport must be tcp | ipc | discover, got "@ + str_debug(t))
}

/// The target the plan uses for a valid `robot_bus:` section.
pub open spec fn target_planned(rb: Option<RobotBusSection>, t: BusTarget) -> bool {
    match rb {
        None => t matches BusTarget::Tcp { host } && host@ == "localhost"@,
        Some(rb) => if rb.transport@ == "tcp"@ {
            t matches BusTarget::Tcp { host } && host@ == rb.host@
        } else if rb.transport@ == "ipc"@ {
            t matches BusTarget::Ipc { path } && opt_view(path) == opt_view(rb.ipc_path)
        } else {
            t matches BusTarget::Discover { api_url, timeout_ms, broker_id } && match rb.discover {
                Some(d) => api_url@ == d.api_url@ && timeout_ms == Some(d.timeout_ms) && opt_view(
                    broker_id,
                ) == opt_view(d.broker_id),
                None => api_url@ == "http://127.0.0.1:"@ + decimal(DEFAULT_API_PORT as nat)
                    && timeout_ms is None && broker_id is None,
            }
        },
    }
}

fn plan_routes(k: RouteKind, entries: &Vec<RouteSection>) -> (r: Result<Vec<RoutePlan>, BusError>)
    ensures
        match r {
            Ok(p) => first_direction_error(k, entries@) is None && routes_planned(k, entries@, p@),
            Err(e) => first_direction_error(k, entries@) == Some(e@),
        },
{
    let mut out: Vec<RoutePlan> = Vec::new();
    let mut i: usize = 0;
    assert(entries@.subrange(0, entries@.len() as int) =~= entries@);
    while i < entries.len()
        invariant
            i <= entries@.len(),
            out@.len() == i,
            forall|j: int| 0 <= j < i ==> route_planned(k, #[trigger] entries@[j], out@[j]),
            first_direction_error(k, entries@) == first_direction_error(
                k,
                entries@.subrange(i as int, entries@.len() as int),
            ),
        decreases entries@.len() - i,
    {
        let e = &entries[i];
        let ghost rest = entries@.subrange(i as int, entries@.len() as int);
        assert(rest[0] == entries@[i as int]);
        assert(rest.drop_first() =~= entries@.subrange(i + 1, entries@.len() as int));
        match parse_direction_of_kind(k, e.direction.as_str()) {
            Ok(d) => {
                out.push(
                    RoutePlan {
                        ros_name: e.ros_name.clone(),
                        bus_name: e.bus_name.clone(),
                        msg_type: e.msg_type.clone(),
                        direction: d,
                    },
                );
            },
            Err(err) => {
                return Err(err);
            },
        }
        i = i + 1;
    }
    assert(entries@.subrange(i as int, entries@.len() as int).len() == 0);
    Ok(out)
}

fn plan_target(rb: &Option<RobotBusSection>) -> (r: Result<BusTarget, BusError>)
    ensures
        match r {
            Ok(t) => transport_known(spec_transport(*rb)) && target_planned(*rb, t),
            Err(e) => !transport_known(spec_transport(*rb)) && e@ == spec_transport_error(
                spec_transport(*rb),
            ),
        },
{
    match rb {
        None => Ok(BusTarget::Tcp { host: "localhost".to_owned() }),
        Some(s) => {
            if str_eq(s.transport.as_str(), "tcp") {
                Ok(BusTarget::Tcp { host: s.host.clone() })
            } else if str_eq(s.transport.as_str(), "ipc") {
                Ok(BusTarget::Ipc { path: clone_opt(&s.ipc_path) })
            } else if str_eq(s.transport.as_str(), "discover") {
                match &s.discover {
                    Some(d) => Ok(
                        BusTarget::Discover {
                            api_url: d.api_url.clone(),
                            timeout_ms: Some(d.timeout_ms),
                            broker_id: clone_opt(&d.broker_id),
                        },
                    ),
                    None => Ok(
                        BusTarget::Discover {
                            api_url: default_api_url(),
                            timeout_ms: None,
                            broker_id: None,
                        },
                    ),
                }
            } else {
                let q = debug_str(s.transport.as_str());
                Err(
                    BusError::Protocol(
                        concat2("robot_bus.transport must be tcp | ipc | discover, got ", q.as_str()),
                    ),
                )
            }
        },
    }
}

/// Check a bridge configuration and produce its plan. Refused, in this order: a document
/// without any route, service or action; an unknown transport; the first route, then service,
/// then action whose direction does not parse.
pub fn plan_bridge(cfg: &BridgeConfig) -> (r: Result<BridgePlan, BusError>)
    ensures
        cfg.routes@.len() == 0 && cfg.services@.len() == 0 && cfg.actions@.len() == 0 ==> (
        r matches Err(e) && e@ == ErrorView::Protocol(EMPTY_CONFIG@)),
        !(cfg.routes@.len() == 0 && cfg.services@.len() == 0 && cfg.actions@.len() == 0) ==> {
            if !transport_known(spec_transport(cfg.robot_bus)) {
                r matches Err(e) && e@ == spec_transport_error(spec_transport(cfg.robot_bus))
            } else if first_direction_error(RouteKind::Topic, cfg.routes@) is Some {
                r matches Err(e) && Some(e@) == first_direction_error(RouteKind::Topic, cfg.routes@)
            } else if first_direction_error(RouteKind::Service, cfg.services@) is Some {
                r matches Err(e) && Some(e@) == first_direction_error(
                    RouteKind::Service,
                    cfg.services@,
                )
            } else if first_direction_error(RouteKind::Action, cfg.actions@) is Some {
                r matches Err(e) && Some(e@) == first_direction_error(RouteKind::Action, cfg.actions@)
            } else {
                r matches Ok(p) && p.name@ == "ros2_bridge"@ && target_planned(cfg.robot_bus, p.target)
                    && routes_planned(RouteKind::Topic, cfg.routes@, p.routes@) && routes_planned(
                    RouteKind::Service,
                    cfg.services@,
                    p.services@,
                ) && routes_planned(RouteKind::Action, cfg.actions@, p.actions@)
            }
        },
{
    if cfg.routes.len() == 0 && cfg.services.len() == 0 && cfg.actions.len() == 0 {
        return Err(BusError::Protocol(EMPTY_CONFIG.to_owned()));
    }
    let target = match plan_target(&cfg.robot_bus) {
        Ok(t) => t,
        Err(e) => return Err(e),
    };
    let routes = match plan_routes(RouteKind::Topic, &cfg.routes) {
        Ok(p) => p,
        Err(e) => return Err(e),
    };
    let services = match plan_routes(RouteKind::Service, &cfg.services) {
        Ok(p) => p,
        Err(e) => return Err(e),
    };
    let actions = match plan_routes(RouteKind::Action, &cfg.actions) {
        Ok(p) => p,
        Err(e) => return Err(e),
    };
    Ok(BridgePlan { name: "ros2_bridge".to_owned(), target, routes, services, actions })
}

} // verus!
