[package]
name = "model_serving"
version = "0.1.0"
edition = "2021"
publish = false

[dependencies]
anyhow = "=1.0.104"
async-trait = "=0.1.92"
axum = { version = "=0.8.9", features = ["ws", "macros"] }
candle-core = "=0.11.1"
candle-transformers = "=0.11.1"
clap = { version = "=4.6.7", features = ["derive", "env"] }
crossbeam-channel = "=0.5.17"
futures = "=0.3.34"
hf-hub = { version = "=0.5.0", default-features = false, features = ["rustls-tls", "ureq"] }
http = "=1.5.0"
serde = { version = "=1.0.229", features = ["derive"] }
serde_json = "=1.0.154"
sqlx = { version = "=0.8.6", default-features = false, features = ["runtime-tokio", "postgres"] }
thiserror = "=2.0.21"
tokenizers = { version = "=0.23.2", default-features = false, features = ["onig"] }
tokio = { version = "=1.54.1", features = ["full"] }
tokio-stream = "=0.1.19"
tonic = "=0.13.1"
tonic-health = "=0.13.1"
tonic-reflection = "=0.13.1"
tower-http = { version = "=0.6.11", features = ["trace"] }
tower-sessions = { version = "=0.15.0", default-features = false, features = ["axum-core"] }
tracing = "=0.1.44"
tracing-core = "=0.1.36"
tracing-subscriber = { version = "=0.3.23", features = ["env-filter", "json"] }
uuid = { version = "=1.29.0", features = ["v4"] }
