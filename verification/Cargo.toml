[package]
name = "kival"
version = "0.1.0"
edition = "2021"
publish = false

[dependencies]
uuid = "1"
base64 = "0.22"
sha2 = "0.10"
getrandom = "0.3"
serde = { version = "1", features = ["derive"] }
serde_json = "1"
toml = "0.8"
