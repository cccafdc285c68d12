[package]
name = "inscription_trade"
version = "0.1.0"
edition = "2021"
publish = false

[dependencies]
bitcoin = { version = "0.30", features = ["base64"] }
bitcoincore-rpc = "0.17"
dotenv = "0.15"
reqwest = { version = "0.11", features = ["blocking"] }
