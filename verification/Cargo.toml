[package]
name = "async_tracing"
version = "0.1.0"
edition = "2021"
publish = false

[dependencies]
uuid = { version = "=1.27.0", features = ["v4", "serde"] }
url = { version = "=2.5.8", features = ["serde"] }
console-api = "=0.9.0"
tokio = { version = "=1.53.2", features = ["sync", "rt-multi-thread", "macros", "time", "fs"] }
tonic = "=0.14.6"
prost-types = "=0.14.4"
serde = { version = "=1.0.229", features = ["derive"] }
serde_json = "=1.0.151"
sysinfo = "=0.39.6"
dirs = "=7.0.0"
chrono = { version = "=0.4.45", features = ["serde"] }
thiserror = "=2.0.21"
anyhow = "=1.0.104"
