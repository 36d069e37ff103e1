[package]
name = "envz"
version = "0.1.0"
edition = "2021"
publish = false

[dependencies]
aes-gcm = "0.10"
base64 = "0.22"
chrono = "0.4"
clap = { version = "4", features = ["derive", "env"] }
core-foundation = "0.10"
dialoguer = "0.11"
hkdf = "0.12"
litcrypt = "0.3"
rand = "0.8"
security-framework-sys = "2"
serde = { version = "1", features = ["derive"] }
serde_json = "1"
sha2 = "0.10"
thiserror = "2"
zeroize = "1"
