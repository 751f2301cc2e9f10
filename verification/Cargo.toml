[package]
name = "miyori"
version = "0.1.0"
edition = "2021"
publish = false

[dependencies]
anyhow = "=1.0.104"
basic-toml = "=0.1.10"
serde = { version = "=1.0.229", features = ["derive"] }
serde_json = { version = "=1.0.154", features = ["preserve_order"] }
vsock = "=0.5.5"
smithay-client-toolkit = { version = "=0.21.1", default-features = false, features = ["calloop"] }
gtk4 = "=0.9.7"
