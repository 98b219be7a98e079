[package]
name = "exposure_log"
version = "0.1.0"
edition = "2021"
publish = false

[dependencies]
csv = "*"
serde = { version = "*", features = ["derive"] }
fraction = "*"
regex = "*"
