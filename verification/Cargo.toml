[package]
name = "http_server"
version = "0.1.0"
edition = "2021"
publish = false

[dependencies]
tokio = { version = "=1.54.1", features = ["fs", "io-util", "macros", "net", "rt-multi-thread"] }

[dev-dependencies]
nom = "7"
