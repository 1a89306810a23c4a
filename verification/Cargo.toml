[package]
name = "danmakuhub"
version = "0.1.0"
edition = "2021"
publish = false

[dependencies]
md5 = "=0.8.1"
axum = "=0.8.9"
env_logger = "=0.11.11"
mimalloc = "=0.1.52"
reqwest = { version = "=0.12.28", default-features = false, features = ["rustls-tls", "stream", "json"] }
serde = { version = "=1.0.229", features = ["derive"] }
sqlite = "=0.37.4"
tokio = { version = "=1.53.2", features = ["rt-multi-thread", "macros", "net"] }
tower-http = { version = "=0.7.1", features = ["cors"] }
tracing = "=0.1.44"
