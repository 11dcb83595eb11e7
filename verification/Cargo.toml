[package]
name = "incin_core"
version = "0.1.0"
edition = "2021"
publish = false

[dependencies]
serde = { version = "=1.0.229", features = ["derive"] }
half = "=2.7.1"
spin = "*"
