[package]
name = "user_directory"
version = "0.1.0"
edition = "2021"
publish = false

[dependencies]
sessionless = { version = "=0.1.1", features = ["uuid"] }
serde = { version = "=1.0.229", features = ["derive"] }
serde_json = "=1.0.154"
axum = "=0.7.9"
tokio = { version = "=1.54.1", features = ["full"] }
anyhow = "=1.0.104"
