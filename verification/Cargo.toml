[package]
name = "panel_firmware"
version = "0.1.0"
edition = "2021"
publish = false

[dependencies]
anyhow = "1"
embedded-svc = "0.28"
esp-idf-svc = "0.51"
heapless = { version = "=0.8.0", features = ["serde"] }
log = "0.4"
serde = { version = "1", features = ["derive"] }
serde_json = "=1.0.154"
