[package]
name = "wb_switch"
version = "0.6.0"
edition = "2021"
publish = false

[dependencies]
axum = "*"
bytes = "1"
futures = "0.3"
reqwest = { version = "0.12", default-features = false, features = ["json", "stream", "rustls-tls"] }
rusqlite = { version = "*", features = ["bundled"] }
serde = { version = "1", features = ["derive"] }
serde_json = "1"
tokio = { version = "1", features = ["rt-multi-thread", "net", "sync", "time", "macros"] }
uuid = { version = "1", features = ["v4"] }
