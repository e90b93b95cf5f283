[package]
name = "gauge_cluster"
version = "0.1.0"
edition = "2021"
publish = false

[dependencies]
embedded-graphics = "=0.7.1"
embedded-graphics-simulator = "=0.4.1"
serde = { version = "=1.0.229", features = ["derive"] }
socketcan = "=1.7.0"
toml = "=1.1.8"

[dev-dependencies]
half = "=2.7.1"
