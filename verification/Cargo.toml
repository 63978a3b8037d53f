[package]
name = "pathery"
version = "0.1.0"
edition = "2021"
publish = false

[dependencies]
tantivy = "0.19"
zstd = "*"
base64 = "*"
uuid = { version = "*", features = ["v4"] }
chrono = "*"
serde = { version = "*", features = ["derive"] }
serde_json = "*"
