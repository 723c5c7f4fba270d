[package]
name = "xlm_ns"
version = "0.1.0"
edition = "2021"
publish = false

[dependencies]
soroban-sdk = "22"
clap = { version = "4", features = ["derive"] }
clap_complete = "4"
anyhow = "1"
serde_json = "1"
tokio = { version = "1", features = ["macros", "rt-multi-thread"] }
