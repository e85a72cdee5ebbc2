# robot_bus

Verified core of a ROS 2–style message bus client (topics, services,
actions, timers, parameters, callback groups) over a ZeroMQ / WebSocket
broker, with the decisions of its runtime stated and proved in Verus.

- `src/` — the library: node options and endpoint naming, the broker
  session state machine, executor lifecycle and timers, callback groups and
  worker-pool admission, topic matching, frame layouts of the worker and
  action sockets, goal handles, the subscriptions and timers of a WebSocket
  node, parameters and parameter documents (with the integer ↔ double
  conversions done on IEEE 754 bit patterns), RPC status mapping, and the
  ROS 2 bridge configuration and console rows. Functions carry contracts;
  properties that span several operations stand as `law_*` proof functions.
- `app/` — the I/O around it: ZeroMQ sockets and the poll loop (with the
  action worker's goals run off the poll thread, and the executor's own
  action client), the action client's goal threads, the broker session
  thread, worker threads, HTTP readiness probes, YAML documents and protobuf
  encoding. The session thread takes the broker's
  HTTP discovery call as a function.
- Not here: the `rclrs` wiring of the ROS 2 bridge, the tokio-based WebSocket
  connection runtime and the gRPC client (their decisions that stand on
  their own are in `src/`: `ws_state`, `ws_streams`, `ws_runtime`,
  `rpc_status`, `action_goal`, `ros_goal`), and the `Node` / `Context`
  façade that ties these together.
- `tests/` — executable tests of the library.
