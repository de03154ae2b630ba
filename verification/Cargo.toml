[package]
name = "octo_dl"
version = "0.1.0"
edition = "2021"
publish = false

[dependencies]
axum = { version = "=0.8.9", features = ["ws"] }
bytes = "=1.12.1"
dirs = "=7.0.0"
futures-util = "=0.3.34"
indexmap = "=2.14.2"
log = "=0.4.35"
mega = "=0.8.0"
postcard = { version = "=1.1.3", features = ["use-std"] }
ratatui = "=0.30.2"
reqwest = { version = "=0.12.28", default-features = false }
serde = { version = "=1.0.229", features = ["derive"] }
serde_json = "=1.0.154"
sysinfo = "=0.40.1"
tokio = { version = "=1.54.1", features = ["full"] }
tokio-util = "=0.7.20"
tower-http = { version = "=0.7.1", features = ["cors"] }
uuid = { version = "=1.29.0", features = ["v4"] }
