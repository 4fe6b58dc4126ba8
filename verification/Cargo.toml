[package]
name = "conn_registry"
version = "0.1.0"
edition = "2021"
publish = false

[dependencies]
tokio = { version = "1", default-features = false, features = ["net", "io-util", "io-std", "sync", "rt-multi-thread", "macros"] }
