[package]
name = "framez"
version = "0.1.0"
edition = "2021"
publish = false

[dependencies]
crc32fast = "1"
embedded-io-async = "0.6"
embedded-io-adapters = { version = "0.6", features = ["tokio-1"] }
futures = "0.3"
tokio = { version = "1", features = ["io-util", "rt"] }
