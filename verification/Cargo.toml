[package]
name = "qsc_rca"
version = "0.1.0"
edition = "2021"
publish = false

[dependencies]
rustc-hash = "1.1.0"
indenter = "0.3.3"
serde = { version = "1", features = ["derive"] }
serde_json = "1"
