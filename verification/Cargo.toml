[package]
name = "consensus_core"
version = "0.1.0"
edition = "2021"
publish = false

[dependencies]
anyhow = "*"
indexmap = "*"
parking_lot = "*"
rand = "*"
tokio = { version = "*", features = ["rt", "sync", "time", "macros"] }
