[package]
name = "store_probe"
version = "0.1.0"
edition = "2021"
publish = false

[dependencies]
rand = "*"
redis = { version = "*", default-features = false }
uuid = { version = "*", features = ["v4"] }
