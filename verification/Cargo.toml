[package]
name = "ws_core"
version = "0.1.0"
edition = "2021"
publish = false

[dependencies]
futures = "0.1"
futures-cpupool = "0.1"
tokio-core = "0.1"
websocket = { version = "0.26", default-features = false, features = ["async"] }
