[package]
name = "lab_suite"
version = "0.1.0"
edition = "2021"
publish = false

[dependencies]
argon2 = "0.5"
chacha20poly1305 = "0.10"
rand = "0.8"
zeroize = "1"
totp-rs = "5"
serde = { version = "1", features = ["derive"] }
serde_json = "1"
base64 = "0.22"
keyboard-types = { version = "0.7", default-features = false }
