[package]
name = "chronicle_bot"
version = "0.1.0"
edition = "2021"
publish = false

[dependencies]
aws-credential-types = { version = "1", features = ["hardcoded-credentials"] }
aws-sdk-s3 = { version = "1", default-features = false, features = ["rt-tokio"] }
axum = "0.7"
chrono = { version = "=0.4.45", features = ["serde"] }
clap = { version = "4", features = ["derive", "env"] }
dashmap = "=6.2.1"
hex = "=0.4.3"
metrics = "0.24"
metrics-exporter-prometheus = { version = "0.16", default-features = false, features = ["http-listener"] }
reqwest = { version = "0.12", default-features = false, features = ["json", "multipart", "rustls-tls"] }
rustls = { version = "0.23", default-features = false, features = ["ring", "std"] }
serde = { version = "1", features = ["derive"] }
serde_json = "1"
serenity = { version = "0.12", default-features = false, features = ["client", "gateway", "cache", "model", "http", "builder", "collector", "utils", "rustls_backend", "voice"] }
sha2 = "=0.10.9"
sqlx = { version = "0.8", default-features = false, features = ["runtime-tokio", "postgres", "uuid", "chrono"] }
thiserror = "2"
tokio = { version = "1", features = ["full"] }
tokio-util = "0.7"
tracing = "0.1"
tracing-subscriber = { version = "0.3", features = ["env-filter", "json"] }
uuid = { version = "=1.29.0", features = ["v4", "serde"] }
