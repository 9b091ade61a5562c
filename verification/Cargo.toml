[package]
name = "helium"
version = "0.1.0"
edition = "2021"
publish = false

[dependencies]
rustls-pemfile = "1"
futures = "0.3"
tokio = { version = "1", features = ["rt", "rt-multi-thread", "sync", "time", "macros"] }
parking_lot = "0.12"
async-stream = "0.3"
serde = { version = "1", features = ["derive"] }
rmp-serde = "1"
anyhow = "1"
axum = { version = "0.7", default-features = false }
