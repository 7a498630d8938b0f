[package]
name = "semka_core"
version = "0.1.0"
edition = "2021"
publish = false

[dependencies]
bytes = "=1.12.1"
serde_json = "=1.0.151"
serde = { version = "=1.0.229", features = ["derive"] }
futures = "=0.3.34"
regex = "=1.13.1"
seed = { version = "=0.10.0", features = ["routing"] }
