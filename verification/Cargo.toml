[package]
name = "escpos_emulator"
version = "0.1.0"
edition = "2021"
publish = false

[dependencies]
egui = "=0.27.2"
tokio = { version = "1", features = ["rt-multi-thread", "macros", "net", "io-util", "sync", "time"] }
tracing = "0.1"
tracing-subscriber = "0.3"
anyhow = "1"
