[package]
name = "radkit"
version = "0.1.0"
edition = "2021"
publish = false

[dependencies]
a2a-types = "=0.2.0"
async-stream = "=0.3.6"
async-trait = "=0.1.92"
axum = { version = "=0.8.9", default-features = false, features = ["json", "query", "tokio"] }
base64 = "=0.22.1"
chrono = "=0.4.45"
dashmap = "=6.2.1"
futures = "=0.3.34"
proc-macro2 = "=1.0.107"
quote = "=1.0.47"
reqwest = { version = "=0.12.28", default-features = false, features = ["json", "rustls-tls"] }
serde = { version = "=1.0.229", features = ["derive"] }
serde_json = "=1.0.154"
serde_yaml = "=0.9.34"
sqlx = { version = "=0.8.6", default-features = false, features = ["runtime-tokio", "sqlite"] }
syn = { version = "=2.0.119", features = ["full"] }
tracing = "=0.1.44"
ts-rs = "=10.1.0"
uuid = { version = "=1.29.0", features = ["v4"] }
