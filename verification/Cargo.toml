[package]
name = "ferrum"
version = "0.1.0"
edition = "2021"
publish = false

[dependencies]
async-trait = "=0.1.92"
futures = "=0.3.34"
pin-project-lite = "=0.2.17"
proc-macro2 = "=1.0.107"
pyo3 = "=0.30.1"
quote = "=1.0.47"
serde = { version = "=1.0.229", features = ["derive"] }
serde_json = "=1.0.154"
syn = { version = "=2.0.119", features = ["full"] }
thiserror = "=1.0.69"
tokio = { version = "=1.54.1", features = ["sync", "rt", "time"] }
uuid = { version = "=1.29.0", features = ["v4"] }
