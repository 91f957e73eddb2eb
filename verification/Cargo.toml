[package]
name = "turbo_tasks"
version = "0.1.0"
edition = "2021"
publish = false

[dependencies]
flurry = "=0.5.2"
indexmap = "=2.14.2"
serde = { version = "=1.0.229", features = ["derive"] }
serde_json = "=1.0.151"
