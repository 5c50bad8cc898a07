[package]
name = "fluxora_provenance"
version = "1.0.0"
edition = "2021"
publish = false

[dependencies]
hex = "=0.4.3"
serde = { version = "=1.0.229", features = ["derive"] }
serde_json = "=1.0.154"
sha2 = "=0.10.9"
soroban-sdk = "27"
toml = "=0.8.23"
