[package]
name = "edotex"
version = "0.1.0"
edition = "2021"
publish = false

[dependencies]
axum = "0.8"
clap = { version = "4", features = ["derive"] }
httpdate = "1"
include_dir = "0.7"
serde = { version = "1", features = ["derive"] }
serde_json = "1"
tectonic_bridge_core = "0.4"
tokio = { version = "1", features = ["fs", "net", "rt-multi-thread", "signal"] }
