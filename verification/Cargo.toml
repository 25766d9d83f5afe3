[package]
name = "estamora"
version = "0.1.0"
edition = "2021"
publish = false

[dependencies]
sha2 = "0.10"
hex = "0.4"
quick-xml = "0.37"
time = { version = "0.3", features = ["parsing"] }
base64 = "0.22"
stellar-strkey = "*"
stellar-xdr = { version = "23", features = ["curr", "std"] }
serde = { version = "1", features = ["derive"] }
serde_json = "1"
serde_yaml_ng = "0.10"
soroban-sdk = { version = "23", features = ["testutils"] }
reqwest = { version = "0.12", default-features = false, features = ["blocking", "json", "rustls-tls"] }
