[package]
name = "dev_deps"
version = "0.9.0"
edition = "2021"
publish = false

[dependencies]
dev-report = "*"
serde = { version = "1", features = ["derive"] }
serde_json = "1"
