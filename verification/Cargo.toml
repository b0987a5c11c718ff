[package]
name = "slip_core"
version = "0.1.0"
edition = "2021"
publish = false

[dependencies]
backon = { version = "1", features = ["tokio-sleep"] }
bollard = "0.18"
chrono = { version = "0.4", features = ["serde"] }
dashmap = "6"
futures-util = "0.3"
json-patch = "*"
reqwest = { version = "0.12", default-features = false, features = ["json"] }
serde = { version = "1", features = ["derive"] }
serde_json = "1"
serde_yaml = "0.9"
thiserror = "2"
tokio = { version = "1", features = ["rt", "rt-multi-thread", "macros", "time", "sync", "process", "fs", "io-util"] }
toml = "0.8"
tracing = "0.1"
ulid = "1"
