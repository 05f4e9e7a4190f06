[package]
name = "omnitrade_core"
version = "0.1.0"
edition = "2021"
publish = false

[dependencies]
chrono = "0.4"
dirs = "*"
urlencoding = "2"
reqwest = { version = "0.12", features = ["blocking"] }
