[package]
name = "dexios"
version = "0.1.0"
edition = "2021"
publish = false

[dependencies]
aead = { version = "0.4", features = ["alloc"] }
aes-gcm = "0.9"
chacha20poly1305 = "0.9"
deoxys = "0.0.2"
blake3 = { version = "1", features = ["pure"] }
rand = "0.8"
argon2 = "0.4"
zeroize = "1"
ring = "0.17"
base64 = "0.13"
clap = "3"
anyhow = "1"
paris = { version = "1.5", features = ["macros"] }
rpassword = "7"
serde = { version = "1", features = ["derive"] }
serde_json = "1"
