[package]
name = "lexe_sdk"
version = "0.1.0"
edition = "2021"
publish = false

[dependencies]
dotenvy = "*"
tokio = { version = "1", features = ["rt"] }
