[package]
name = "file_cdn"
version = "0.1.0"
edition = "2021"
publish = false

[dependencies]
bcrypt = "*"
chrono = "0.4"
mime_guess = "2"
rand = "0.8"
uuid = { version = "1", features = ["v4"] }
axum = { version = "0.7", features = ["multipart"] }
rusqlite = { version = "*", features = ["bundled"] }
serde = { version = "1", features = ["derive"] }
tokio = { version = "1", features = ["macros", "rt-multi-thread", "net", "fs", "sync", "io-util"] }
tokio-util = { version = "0.7", features = ["io"] }
