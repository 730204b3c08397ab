[package]
name = "sandbox_network"
version = "0.1.0"
edition = "2021"
publish = false

[dependencies]
anyhow = "=1.0.104"
async-trait = "=0.1.92"
tokio = { version = "=1.54.1", default-features = false, features = ["rt", "sync"] }
