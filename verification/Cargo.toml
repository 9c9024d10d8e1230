[package]
name = "portrelay"
version = "0.1.0"
edition = "2021"
publish = false

[dependencies]
tokio = { version = "=1.53.2", features = ["rt", "net", "io-util", "macros", "sync"] }
home = "=0.5.12"
