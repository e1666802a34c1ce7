[package]
name = "fynd_core"
version = "0.1.0"
edition = "2021"
publish = false

[dependencies]
alloy = { version = "=2.5.0", default-features = false, features = ["std", "sol-types"] }
anyhow = "1"
async-channel = "2"
async-trait = "0.1"
clap = { version = "4", features = ["derive", "env"] }
futures = "0.3"
metrics = "*"
metrics-exporter-prometheus = { version = "*", default-features = false }
num-bigint = "=0.4.8"
num-traits = "0.2"
num_cpus = "=1.17.0"
serde = { version = "1", features = ["derive"] }
serde_json = "1"
serde_with = "3"
thiserror = "2"
tokio = { version = "1", features = ["full"] }
tokio-stream = "0.1"
tracing = "0.1"
tracing-subscriber = { version = "0.3", features = ["env-filter"] }
tycho-common = "=0.496.1"
tycho-execution = { version = "=0.496.1", default-features = false }
uuid = { version = "=1.29.0", features = ["v4"] }
