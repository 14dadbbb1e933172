[package]
name = "sparrow_agent"
version = "0.1.0"
edition = "2021"
publish = false

[dependencies]
anyhow = "=1.0.104"
async-stream = "=0.3.6"
async-trait = "=0.1.92"
axum = "=0.8.9"
chrono = { version = "=0.4.45", features = ["serde"] }
futures-util = "=0.3.34"
globset = "=0.4.21"
indicatif = { version = "=0.18.6", features = ["in_memory"] }
libc = "=0.2.191"
reqwest = { version = "=0.12.28", default-features = false, features = ["json", "stream", "rustls-tls"] }
serde = { version = "=1.0.229", features = ["derive"] }
serde_json = "=1.0.154"
sha2 = "=0.10.9"
tempfile = "=3.27.0"
tokio = { version = "=1.54.1", features = ["full"] }
tower-http = { version = "=0.6.11", features = ["fs"] }
ulid = "=1.2.1"
unicode-width = "=0.2.3"
