[package]
name = "tutanota_client"
version = "0.1.0"
edition = "2021"
publish = false

[dependencies]
aes = "0.7"
base64 = "0.13"
bcrypt = "0.19"
block-modes = "0.8"
futures = "0.3"
hmac = "0.11"
hyper = { version = "0.14", features = ["client", "http1"] }
rand_os = "0.1"
rust-crypto = "0.2"
serde = "1"
serde_derive = "1"
serde_json = "1"
sha2 = "0.9"
urlencoding = "2"
