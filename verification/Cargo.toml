[package]
name = "remote_terminal"
version = "0.1.0"
edition = "2021"
publish = false

[dependencies]
regex = "=1.13.1"
chrono = { version = "=0.4.45", default-features = false, features = ["clock", "std", "serde"] }
serde = { version = "=1.0.229", features = ["derive"] }
tokio = { version = "=1.54.1", features = ["rt-multi-thread", "macros", "process", "time", "sync", "net"] }
axum = { version = "=0.8.9", features = ["ws"] }
axum-reverse-proxy = "=2.4.0"
sqlx = { version = "=0.8.6", default-features = false, features = ["sqlite", "runtime-tokio", "chrono"] }
tower-http = { version = "=0.6.11", features = ["cors", "fs", "trace"] }
tokio-tungstenite = "=0.30.0"
futures-util = "=0.3.34"
async-trait = "=0.1.92"
anyhow = "=1.0.104"
thiserror = "=2.0.21"
tracing = "=0.1.44"
tracing-subscriber = { version = "=0.3.23", features = ["env-filter"] }
