[package]
name = "robot_farm"
version = "0.1.0"
edition = "2021"
publish = false

[dependencies]
chrono = "0.4"
gix = "*"
once_cell = "1"
parking_lot = "0.12"
path-clean = "1"
serde = { version = "1", features = ["derive"] }
serde_json = "1"
tempfile = "3"
thiserror = "2"
tokio = { version = "1", features = ["macros", "process", "rt-multi-thread", "sync", "time", "io-util"] }
tracing = "0.1"
uuid = { version = "1", features = ["v4"] }
