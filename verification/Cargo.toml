[package]
name = "openhome"
version = "0.1.0"
edition = "2021"
publish = false

[dependencies]
chacha20poly1305 = "*"
base64 = "*"
subtle = "*"
url = "*"
zeroize = "*"
serde = { version = "*", features = ["derive"] }
serde_json = "*"
toml = "*"
reqwest = { version = "*", default-features = false, features = ["blocking", "json"] }
