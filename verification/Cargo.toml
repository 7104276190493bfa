[package]
name = "shmtu_terminal"
version = "0.1.0"
edition = "2021"
publish = false

[dependencies]
aes-gcm = "=0.10.3"
sha2 = "=0.10.9"
hmac = "=0.12.1"
base64 = "=0.22.1"
hex = "=0.4.3"
subtle = "=2.6.1"
rand = "=0.8.8"
chrono = "=0.4.45"
serde = { version = "=1.0.229", features = ["derive"] }
serde_json = "=1.0.154"
toml = { version = "=0.8.23", features = ["preserve_order"] }
regex = "=1.13.1"
anyhow = "=1.0.104"
thiserror = "=1.0.69"
zip = { version = "=2.6.1", default-features = false, features = ["deflate"] }
uuid = { version = "=1.29.0", features = ["v4"] }
if-addrs = "=0.15.0"
