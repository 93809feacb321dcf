[package]
name = "barter_engine"
version = "0.1.0"
edition = "2021"
publish = false

[dependencies]
tokio = { version = "=1.53.2", features = ["sync"] }
chrono = "=0.4.45"
barter-integration = { version = "=0.12.0", features = ["channel"] }
