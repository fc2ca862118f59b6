[package]
name = "flow_transport"
version = "0.1.0"
edition = "2021"
publish = false

[dependencies]
tokio = { version = "1", features = ["rt-multi-thread", "net", "sync", "io-util", "macros", "time"] }
tower = { version = "0.4", features = ["limit", "util"] }
futures-util = "0.3"
bytes = "1"
