[package]
name = "busbridge"
version = "0.1.0"
edition = "2021"
publish = false

[dependencies]
async-nats = "*"
axum = { version = "*", features = ["ws"] }
futures = "*"
tokio = { version = "*", features = ["full"] }
