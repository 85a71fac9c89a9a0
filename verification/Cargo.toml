[package]
name = "cake_core"
version = "0.1.0"
edition = "2021"
publish = false

[dependencies]
anyhow = "*"
async-trait = "*"
candle-core = "*"
candle-transformers = "*"
clap = { version = "*", features = ["derive"] }
serde = { version = "*", features = ["derive"] }
