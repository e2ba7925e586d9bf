[package]
name = "select2explain"
version = "0.1.0"
edition = "2021"
publish = false

[dependencies]
anyhow = "1.0.104"
base64 = "0.22.1"
chrono = "0.4.45"
dirs = "6.0.0"
image = { version = "0.25.10", default-features = false, features = ["png"] }
keyring = "3.6.3"
reqwest = { version = "0.12.28", features = ["json"] }
serde = { version = "1.0.229", features = ["derive"] }
serde_json = "1.0.154"
tokio = { version = "1.54.1", features = ["full"] }
