[package]
name = "telemetry_core"
version = "0.1.0"
edition = "2021"
publish = false

[dependencies]
cobs = "0.3"
crc = "3"
heapless = "0.8"
postcard = { version = "1", default-features = false }
serde = { version = "1", features = ["derive"] }
clap = { version = "4", features = ["derive"] }
comfy-table = "7"
rand = "0.9"
rand_chacha = "0.9"
