[package]
name = "ferrumdb"
version = "0.1.0"
edition = "2021"
publish = false

[dependencies]
anyhow = "1"
axum = "*"
base64 = "*"
bytes = "1"
num_cpus = "1"
serde = { version = "1", features = ["derive"] }
siphasher = "1"
sysinfo = "*"
tokio = { version = "1", features = ["full"] }
tower-http = { version = "*", features = ["cors"] }
tracing = "0.1"
tracing-subscriber = { version = "0.3", features = ["env-filter"] }
xxhash-rust = { version = "0.8", features = ["xxh64"] }
