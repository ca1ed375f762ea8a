[package]
name = "lug"
version = "0.1.0"
edition = "2021"
publish = false

[dependencies]
futures = "0.3"
thiserror = "1"
tokio = { version = "1", features = ["macros", "rt", "sync", "time"] }
tokio-stream = "0.1"
tokio-util = "0.7"

[dev-dependencies]
tokio-test = "0.4"
