[package]
name = "esp_cam_tank"
version = "0.1.0"
edition = "2021"
publish = false

[dependencies]
base64 = "=0.22.1"
serde = { version = "=1.0.229", features = ["derive"] }
serde_json = "=1.0.154"
tokio = { version = "=1.54.1", features = ["sync", "time", "macros", "rt"] }
actix = "=0.13.5"
actix-web = "=4.18.1"
actix-ws = "=0.3.1"
futures-util = "=0.3.34"
anyhow = "=1.0.104"
log = "=0.4.35"
esp-idf-svc = "*"
esp-idf-hal = "*"
