[package]
name = "kdf_session"
version = "0.1.0"
edition = "2021"
publish = false

[dependencies]
dryoc = "=2.0.0"
serde = "=1.0.229"
zeroize = "=1.9.1"
