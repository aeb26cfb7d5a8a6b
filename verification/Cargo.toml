[package]
name = "neural_network"
version = "0.1.0"
edition = "2021"

[dependencies]
bincode = "1.3"
rand = "0.8"
serde = { version = "1", features = ["derive"] }
serde_json = "1"
