[package]
name = "vocal_magic"
version = "0.1.0"
edition = "2021"
publish = false

[dependencies]
anyhow = "1"
async-stream = "0.3"
axum = { version = "0.7", features = ["multipart"] }
babycat = "0.0.15"
clap = { version = "4", features = ["derive"] }
dirs = "6"
futures = "0.3"
mlx-rs = "0.25"
ncmdump = "0.8"
rusqlite = { version = "0.37", features = ["bundled"] }
serde = { version = "1", features = ["derive"] }
serde_json = "1"
tokio = { version = "1", features = ["full"] }
tower-http = { version = "0.6", features = ["cors"] }
tracing = "0.1"
tracing-subscriber = "0.3"
uuid = { version = "1", features = ["v4"] }
