[package]
name = "sgloader_core"
version = "0.1.0"
edition = "2021"
publish = false

[dependencies]
blake2 = "0.10"
sha2 = "0.10"
base64 = "0.22"
zstd = "0.13"
ed25519-dalek = { version = "2", features = ["pkcs8"] }
reqwest = { version = "0.12", default-features = false, features = ["blocking", "rustls-tls"] }
serde = { version = "1", features = ["derive"] }
serde_json = "1"
zip = "2"
url = "2"
uuid = { version = "1", features = ["v4"] }
directories = "5"
