[package]
name = "axon"
version = "0.1.0"
edition = "2021"
publish = false

[dependencies]
uuid = { version = "1", features = ["v4"] }
chrono = { version = "0.4", default-features = false, features = ["clock", "std"] }
serde = { version = "1", features = ["derive"] }
serde_json = "1"
serde_yaml = "0.9"
anyhow = "1"
arc-swap = "1"
async-stream = "0.3"
async-trait = "0.1"
axum = "0.7"
clap = { version = "4", features = ["derive"] }
dashmap = "6"
futures = "0.3"
notify = "6"
parking_lot = "0.12"
r2d2 = "0.8"
r2d2_sqlite = "0.24"
rusqlite = "0.31"
reqwest = { version = "0.12", default-features = false, features = ["json", "stream"] }
tokio = { version = "1", features = ["full"] }
tower-http = { version = "0.5", features = ["cors", "trace"] }
tracing = "0.1"
tracing-subscriber = { version = "0.3", features = ["env-filter"] }
