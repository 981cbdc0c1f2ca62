[package]
name = "perspective"
version = "0.1.0"
edition = "2021"
publish = false

[dependencies]
chrono = { version = "0.4", default-features = false }
itertools = "*"
serde = { version = "1", features = ["derive"] }
arrow-schema = "*"
async-trait = "*"
tokio = { version = "1", default-features = false, features = ["sync"] }
