[package]
name = "rtactor"
version = "0.5.1"
edition = "2021"
publish = false

[dependencies]
async-channel = "2"
tokio = { version = "1", features = ["time", "rt", "macros"] }
smol = "2"
mockall = "0.13"
