[package]
name = "rustfaas"
version = "0.1.0"
edition = "2021"
publish = false

[dependencies]
anyhow = "1"
hyper = { version = "0.14", features = ["server", "http1", "tcp"] }
libloading = "0.8"
reqwest = { version = "0.11", default-features = false, features = ["multipart", "stream"] }
tokio = { version = "1", features = ["macros", "rt-multi-thread", "fs", "io-util"] }
tokio-util = { version = "0.7", features = ["codec"] }
