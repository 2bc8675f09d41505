[package]
name = "yuki"
version = "0.1.0"
edition = "2021"
publish = false

[dependencies]
bitcoin = "0.32"
tokio = { version = "1", features = ["time", "sync"] }
