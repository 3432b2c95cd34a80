[package]
name = "insta_auth"
version = "0.1.0"
edition = "2021"
publish = false

[dependencies]
argon2 = "=0.6.0"
base64 = "=0.23.1"
jsonwebtoken = { version = "=11.1.0", features = ["rust_crypto"] }
rand = "=0.8.8"
rsa = { version = "=0.9.10", features = ["sha2"] }
uuid = { version = "=1.27.0", features = ["v4"] }
validator = "=0.21.0"

[dev-dependencies]
serde_json = { version = "=1.0.151", features = ["preserve_order"] }
