[package]
name = "janggab"
version = "0.1.0"
edition = "2021"
publish = false

[dependencies]
anyhow = "*"
chrono = "*"
encoding_rs = "*"
image = { version = "*", default-features = false, features = ["png"] }
regex = "*"
serde = { version = "*", features = ["derive"] }
serde_json = "*"
