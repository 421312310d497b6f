[package]
name = "vocab_cards"
version = "0.1.0"
edition = "2021"
publish = false

[dependencies]
urlencoding = "*"
anyhow = "*"
clap = { version = "*", features = ["derive"] }
reqwest = { version = "*", features = ["json"], default-features = false }
serde = { version = "*", features = ["derive"] }
tokio = { version = "*", features = ["rt-multi-thread", "macros"], default-features = false }
ankiconnect-rs = "*"
