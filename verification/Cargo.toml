[package]
name = "uptime_core"
version = "0.1.0"
edition = "2021"
publish = false

[dependencies]
uuid = { version = "*", features = ["v4"] }
chrono = "*"
anyhow = "*"
axum = "*"
dotenvy = "*"
reqwest = { version = "*", default-features = false, features = ["json"] }
serde = { version = "*", features = ["derive"] }
serde_json = "*"
sqlx = { version = "*", default-features = false, features = ["sqlite", "runtime-tokio"] }
tokio = { version = "*", features = ["macros", "rt-multi-thread", "time", "net", "fs"] }
tracing = "*"
tracing-subscriber = "*"
