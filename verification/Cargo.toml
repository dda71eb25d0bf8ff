[package]
name = "viralefy_api"
version = "0.1.0"
edition = "2021"
publish = false

[dependencies]
ammonia = "=4.2.4"
anyhow = "1"
arc-swap = "1"
axum = "=0.7.9"
base64 = "=0.22.1"
http-body-util = "=0.1.5"
jsonwebtoken = "=9.3.1"
metrics = "=0.24.6"
metrics-exporter-prometheus = { version = "=0.16.2", default-features = false }
regex = "=1.13.1"
reqwest = { version = "=0.12.28", default-features = false, features = ["json", "rustls-tls"] }
serde = { version = "=1.0.229", features = ["derive"] }
serde_json = "=1.0.154"
sqlx = { version = "=0.8.6", default-features = false, features = ["postgres", "runtime-tokio", "tls-rustls"] }
tokio = { version = "1", features = ["macros", "net", "rt-multi-thread", "signal", "sync", "time"] }
tower = "0.5"
tower-http = { version = "=0.6.11", features = ["request-id", "timeout", "trace"] }
tower_governor = "=0.5.0"
tracing = "0.1"
tracing-subscriber = { version = "0.3", features = ["env-filter", "json"] }
