[package]
name = "quest-router"
version = "0.1.0"
edition = "2021"
publish = false

[dependencies]
memchr = "=2.8.3"
hashring = "=0.3.6"
sqlparser = "=0.63.0"
chrono = { version = "=0.4.45", features = ["serde"] }
serde = { version = "=1.0.229", features = ["derive"] }
serde_json = "=1.0.154"
rmp-serde = "=1.3.1"
thiserror = "=2.0.21"
anyhow = "=1.0.104"
tokio = { version = "=1.54.1", features = ["full"] }
axum = { version = "=0.8.9", features = ["ws"] }
tower-http = { version = "=0.7.1", features = ["cors"] }
dashmap = "=6.2.1"
parking_lot = "=0.13.0"
futures = "=0.3.34"
log = "=0.4.35"
tracing = "=0.1.44"
tracing-subscriber = { version = "=0.3.23", features = ["env-filter", "json"] }
clap = { version = "=4.6.7", features = ["derive"] }
bytes = "=1.12.1"
hex = "=0.4.3"
metrics = "=0.24.6"
metrics-exporter-prometheus = { version = "=0.18.3", default-features = false, features = ["http-listener"] }
pgwire = { version = "=0.42.1", features = ["client-api"] }
async-trait = "=0.1.92"
object_store = { version = "=0.14.2", default-features = false, features = ["aws"] }
config = { version = "=0.15.27", default-features = false, features = ["toml"] }
arrow = { version = "*", default-features = false, features = ["ipc"] }
