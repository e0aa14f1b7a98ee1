[package]
name = "vault_client"
version = "0.1.0"
edition = "2021"
publish = false

[dependencies]
anstyle = "1"
base64 = "0.22"
chrono = { version = "0.4", features = ["serde"] }
crc-fast = "*"
dashmap = "*"
openssl = "0.10"
serde = { version = "1", features = ["derive"] }
serde_json = "1"
tabled = "*"
tokio = { version = "1", features = ["full"] }
uuid = { version = "1", features = ["v4"] }
