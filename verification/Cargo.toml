[package]
name = "header_proof"
version = "0.1.0"
edition = "2021"
publish = false

[dependencies]
anyhow = "1"
bincode = "1.3"
bitcoin-spv = "5"
bitcoincore-rpc = "*"
bytemuck = "1"
clap = { version = "4", features = ["derive"] }
env_logger = "0.10"
ethabi = "18"
hex = "0.4"
reqwest = { version = "0.11", features = ["blocking", "json"] }
risc0-zkvm = "0.20"
serde = { version = "1", features = ["derive"] }
