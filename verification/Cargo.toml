[package]
name = "robot_bus"
version = "0.1.0"
edition = "2021"
publish = false

[dependencies]
serde = { version = "1", features = ["derive"] }
serde_json = "1"
serde_yaml = "0.9"
ureq = "2"
log = "0.4"
prost = "0.13"
thiserror = "1"
zmq = "0.10"
