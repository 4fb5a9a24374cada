[package]
name = "wallet_sdk"
version = "0.1.0"
edition = "2021"
publish = false

[dependencies]
base64 = "*"
sha2 = "*"
miniz_oxide = "*"
num-bigint = "*"
num-traits = "*"
p256 = "*"
x509-cert = "*"
serde = { version = "*", features = ["derive"] }
serde_json = "*"
uuid = { version = "*", features = ["v4"] }
isomdl = "*"
thiserror = "*"
anyhow = "*"
time = "*"
