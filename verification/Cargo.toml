[package]
name = "mayl"
version = "0.1.0"
edition = "2021"
publish = false

[dependencies]
axum = "*"
lettre = { version = "*", default-features = false, features = ["builder", "smtp-transport", "tokio1"] }
maud = "*"
rusqlite = { version = "*", features = ["bundled"] }
serde = { version = "*", features = ["derive"] }
serde_json = "*"
tokio = { version = "*", features = ["rt-multi-thread", "macros", "net", "sync", "time"] }
tracing = "*"
tracing-subscriber = { version = "*", features = ["env-filter"] }
uuid = { version = "*", features = ["v4"] }
