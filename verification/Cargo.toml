[package]
name = "monero-consensus"
version = "0.1.0"
edition = "2021"
publish = false

[dependencies]
tower = { version = "0.4", features = ["util"] }
tracing = "0.1"
