[package]
name = "blackhole"
version = "0.1.0"
edition = "2021"
publish = false

[dependencies]
tokio = { version = "0.2", features = ["sync", "time", "stream", "macros", "rt-threaded"] }
futures = "0.3"
failure = { version = "0.1", default-features = false, features = ["std"] }
