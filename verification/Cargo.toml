[package]
name = "rocktick"
version = "0.1.0"
edition = "2021"
publish = false

[dependencies]
croner = "*"
chrono = "*"
hmac = "*"
sha2 = "*"
hex = "*"
url = "*"
ulid = "*"
serde = "*"
serde_json = "*"
