[package]
name = "axum-tariff"
version = "0.1.0"
edition = "2021"
publish = false

[dependencies]
axum = "=0.8.9"
futures-util = "=0.3.34"
maxminddb = "=0.32.0"
tokio = { version = "=1.54.1", features = ["time"] }
tower = "=0.5.3"
