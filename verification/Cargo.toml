[package]
name = "cursive_async_view"
version = "0.1.0"
edition = "2021"
publish = false

[dependencies]
cursive_core = "*"
spinners = "*"
tokio = { version = "1", features = ["rt", "rt-multi-thread", "sync", "time"] }
