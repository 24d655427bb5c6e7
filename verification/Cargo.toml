[package]
name = "mate"
version = "0.1.0"
edition = "2021"
publish = false

[dependencies]
rustc-hash = "2"
clap = { version = "4", features = ["derive"] }
serde = { version = "1", features = ["derive"] }
serde_json = "1"
anyhow = "1"
