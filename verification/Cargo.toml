[package]
name = "gunner"
version = "0.1.0"
edition = "2021"
publish = false

[dependencies]
tokio = { version = "1", features = ["sync", "time", "signal", "rt", "rt-multi-thread", "macros"] }
async-channel = "2"
async-trait = "0.1"
futures = "0.3"
