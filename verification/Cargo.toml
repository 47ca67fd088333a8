[package]
name = "lion"
version = "0.1.0"
edition = "2021"
publish = false

[dependencies]
anyhow = "=1.0.104"
chrono = { version = "=0.4.45", features = ["serde"] }
dashmap = "=5.5.3"
log = "=0.4.35"
once_cell = "=1.21.4"
opentelemetry = "=0.22.0"
opentelemetry_sdk = "=0.22.1"
parking_lot = "=0.12.5"
serde = { version = "=1.0.229", features = ["derive"] }
serde_json = "=1.0.154"
thiserror = "=1.0.69"
thread_local = "=1.1.10"
tracing = "=0.1.44"
uuid = { version = "=1.29.0", features = ["v4", "serde"] }
wasmtime = "=47.0.4"
