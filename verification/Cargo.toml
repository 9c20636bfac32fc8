[package]
name = "file_server"
version = "0.1.0"
edition = "2021"
publish = false

[dependencies]
tokio = { version = "1", features = ["net", "io-util", "fs", "rt-multi-thread", "macros"] }
