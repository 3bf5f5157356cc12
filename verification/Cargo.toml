[package]
name = "chronos_engine"
version = "0.1.0"
edition = "2021"
publish = false

[dependencies]
anyhow = "=1.0.104"
serde = { version = "=1.0.229", features = ["derive"] }
serde_json = "=1.0.154"
notify = "=7.0.0"
egui = "=0.29.1"
rodio = "0.19"
