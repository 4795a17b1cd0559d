[package]
name = "pubserve"
version = "0.1.0"
edition = "2021"
publish = false

[dependencies]
async-trait = "*"
tokio = { version = "*", default-features = false, features = ["rt"] }
