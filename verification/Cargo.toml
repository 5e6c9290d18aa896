[package]
name = "stream_fusion"
version = "0.1.0"
edition = "2021"
publish = false

[dependencies]
futures-core = "0.3"
futures-lite = "2"
pin-project-lite = "0.2"
tokio = { version = "1", default-features = false, features = ["rt", "rt-multi-thread"] }
