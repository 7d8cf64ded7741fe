[package]
name = "t-rust"
version = "0.1.0"
edition = "2021"
publish = false

[dependencies]
hex = "0.4"
serde = { version = "1", features = ["derive"] }
serde_derive = "1"
serde_cbor = "0.11"
bincode = "1"
anyhow = "1"
