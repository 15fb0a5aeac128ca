[package]
name = "cteepbd"
version = "0.1.0"
edition = "2021"
publish = false

[dependencies]
itertools = "0.8"
failure = "0.1"
serde = { version = "1", features = ["derive"] }
