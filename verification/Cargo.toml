[package]
name = "diplomacy"
version = "0.1.0"
edition = "2021"
publish = false

[dependencies]
petgraph = "0.6"
serde = { version = "1", features = ["derive"] }
serde_json = "1"
