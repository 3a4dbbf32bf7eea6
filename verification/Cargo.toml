[package]
name = "cheesecake"
version = "0.1.0"
edition = "2021"
publish = false

[dependencies]
anyhow = "=1.0.104"
async-trait = "=0.1.92"
axum = { version = "=0.8.9", features = ["ws"] }
chrono = "=0.4.45"
dotenvy = "=0.15.7"
hotwatch = "=0.5.0"
serde = { version = "=1.0.229", features = ["derive"] }
serde_json = "=1.0.154"
tera = "=1.20.1"
thiserror = "=2.0.21"
tokio = { version = "=1.54.1", features = ["full"] }
tower = { version = "=0.5.3", features = ["limit", "load-shed", "util"] }
tower-http = { version = "=0.6.11", features = ["fs", "trace", "timeout"] }
tracing = "=0.1.44"
tracing-subscriber = { version = "=0.3.23", features = ["env-filter"] }
