[package]
name = "flow-core"
version = "0.1.0"
edition = "2021"
publish = false

[dependencies]
strsim = "0.11"
parking_lot = "0.12"
tracing = "0.1"
dirs = "*"
tokio = { version = "1", default-features = false, features = ["rt-multi-thread"] }
