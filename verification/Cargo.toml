[package]
name = "tempest"
version = "0.1.0"
edition = "2021"
publish = false

[dependencies]
rand = "0.9"
anyhow = "1"
bincode = { version = "2", features = ["derive"] }
snow = "0.9"
futures = "0.3"
tokio = { version = "1", features = ["macros", "rt-multi-thread", "net", "sync", "time", "io-util"] }
tokio-util = { version = "0.7", features = ["codec"] }
