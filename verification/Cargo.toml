[package]
name = "remotix"
version = "0.1.0"
edition = "2021"
publish = false

[dependencies]
aes-gcm = "0.10"
argon2 = "0.5"
rand = "0.8"
serde = { version = "1", features = ["derive"] }
serde_json = "1"
rusqlite = { version = "0.31", features = ["bundled"] }
ssh2 = "0.9"
gtk4 = "0.9"
libloading = "0.8"
rustls = "0.23"
ironrdp-blocking = "*"
ironrdp-connector = "*"
ironrdp-pdu = "*"
ironrdp-session = "*"
ironrdp-graphics = "*"
