[package]
name = "ipinfo"
version = "0.1.0"
edition = "2021"
publish = false

[dependencies]
lru = { version = "=0.12.5", default-features = false }
anyhow = "1"
axum = "=0.6.20"
hyper = { version = "=0.14.32", features = ["server", "tcp", "http1"] }
tokio = { version = "1", features = ["full"] }
tower-http = { version = "=0.4.4", features = ["fs"] }
handlebars = "=4.5.0"
maxminddb = "=0.23.0"
dns-lookup = "=2.1.1"
serde = { version = "1", features = ["derive"] }
tracing = "0.1"
tracing-subscriber = "0.3"
