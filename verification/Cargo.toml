[package]
name = "enoki"
version = "0.1.0"
edition = "2021"
publish = false

[dependencies]
rmpv = "=1.3.1"
network-tables = { version = "=0.1.3", features = ["client-v4"] }
wpilog = "=0.1.2"
frc-value = "=0.1.3"
serde = { version = "=1.0.229", features = ["derive"] }
serde_json = "=1.0.154"
tokio = { version = "=1.54.1", features = ["rt", "rt-multi-thread", "sync", "time", "macros"] }
tracing = "=0.1.44"
chrono = "=0.4.45"
parking_lot = "=0.12.5"
once_cell = "=1.21.4"
single_value_channel = "=1.2.2"
thiserror = "=1.0.69"
