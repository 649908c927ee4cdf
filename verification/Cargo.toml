[package]
name = "synapse"
version = "0.1.0"
edition = "2021"
publish = false

[dependencies]
axum = "=0.8.9"
base64 = "=0.22.1"
bincode = "=2.0.1"
bytes = "=1.12.1"
chrono = { version = "=0.4.45", features = ["serde"] }
ed25519-dalek = "=2.2.0"
flate2 = "=1.1.10"
getrandom = "=0.3.4"
google-cloud-storage = "=1.21.0"
hex = "=0.4.3"
hmac = "=0.12.1"
http = "=1.5.0"
indexmap = "=2.14.2"
moka = { version = "=0.12.16", features = ["sync"] }
parking_lot = "=0.12.5"
reqwest = { version = "=0.12.28", default-features = false, features = ["json"] }
serde = { version = "=1.0.229", features = ["derive"] }
serde_json = "=1.0.154"
serde_yaml = "0.9"
sha2 = "=0.10.9"
tokio = { version = "=1.54.1", features = ["full"] }
tracing = "=0.1.44"
url = "=2.5.8"
uuid = { version = "=1.29.0", features = ["v4"] }
zstd = "=0.13.4"
