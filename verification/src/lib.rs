//! Verified core of a ROS 2–style message bus client.
pub mod errors;
pub mod node_options;
pub mod qos;
pub mod text;
pub mod transports;
pub mod rpc_status;
pub mod console_ready;
pub mod session;
pub mod bridge;
pub mod bridge_config;
pub mod observe;
pub mod worker_pool;
pub mod callback_group;
pub mod timers;
pub mod shutdown;
pub mod executors;
pub mod topic_callbacks;
pub mod goal_table;
pub mod queues;
pub mod dispatch;
pub mod action_worker;
pub mod action_goal;
pub mod typed_rpc;
pub mod ros_goal;
pub mod ros_idl;
pub mod mappers;
pub mod ws_runtime;
pub mod ws_streams;
pub mod ws_state;
pub mod registration;
pub mod double_bits;
pub mod parameters;
pub mod param_doc;
pub mod ordering;
pub mod control_plane;
pub mod node;
