[package]
name = "power_stats"
version = "0.1.0"
edition = "2021"
publish = false

[dependencies]
charset-normalizer-rs = "1"
chrono = { version = "0.4", default-features = false, features = ["std"] }
csv = "1"
serde = { version = "1", features = ["derive"] }
