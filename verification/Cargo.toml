[package]
name = "openwa_core"
version = "0.1.0"
edition = "2021"
publish = false

[dependencies]
serde = { version = "=1.0.229", features = ["derive"] }
rmp-serde = "=1.3.1"
