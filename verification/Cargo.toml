[package]
name = "flood"
version = "0.1.0"
edition = "2021"
publish = false

[dependencies]
alloy-json-rpc = "=0.1.4"
alloy-rpc-client = { version = "=0.1.4", features = ["reqwest"] }
alloy-transport = "=0.1.4"
anyhow = "=1.0.104"
chrono = { version = "=0.4.45", features = ["serde"] }
clap = { version = "=4.6.7", features = ["derive"] }
hdrhistogram = "=7.6.0"
itertools = "=0.12.1"
jemallocator = "=0.5.4"
parse_duration = "=2.1.1"
rand = "=0.8.8"
serde = { version = "=1.0.229", features = ["derive"] }
serde_json = { version = "=1.0.154", features = ["raw_value"] }
tokio = { version = "=1.54.1", features = ["rt", "rt-multi-thread", "time", "sync", "signal"] }
tracing-subscriber = "=0.3.23"
try-lock = "=0.2.5"
