[package]
name = "lading"
version = "0.1.0"
edition = "2021"
publish = false

[dependencies]
argh = "*"
byte-unit = "*"
bytecount = "*"
governor = "*"
metrics = "*"
metrics-exporter-prometheus = "*"
rand = "0.8"
serde = { version = "1", features = ["derive"] }
serde_yaml = "*"
tokio = { version = "1", features = ["full"] }
tracing = "*"
tracing-subscriber = "*"
