[package]
name = "dkim_attest"
version = "0.1.0"
edition = "2021"
publish = false

[dependencies]
base64 = "*"
rsa = "*"
sha2 = "*"

[dev-dependencies]
rand = "0.8"
