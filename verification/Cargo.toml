[package]
name = "omarchygram_ui"
version = "0.1.8"
edition = "2021"
publish = false

[dependencies]
chrono = "=0.4.45"
flate2 = "=1.1.10"
async-channel = "=2.5.0"
tokio = { version = "=1.54.1", features = ["sync"] }
