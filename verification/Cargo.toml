[package]
name = "spvc"
version = "0.1.0"
edition = "2021"
publish = false

[dependencies]
axum = "0.5"
axum-client-ip = "0.2"
clap = { version = "3", features = ["derive"] }
cookie = "0.16"
sqlx = { version = "0.6", features = ["runtime-tokio-rustls", "sqlite"] }
tokio = { version = "1", features = ["macros", "rt-multi-thread", "signal"] }
tower-cookies = "0.7"
tower-http = { version = "0.3", features = ["trace"] }
tracing = "0.1"
tracing-subscriber = { version = "0.3", features = ["env-filter", "fmt"] }
