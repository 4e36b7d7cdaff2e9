[package]
name = "remote_drop"
version = "0.1.0"
edition = "2021"
publish = false

[dependencies]
critical-section = { version = "1", features = ["std"] }
embassy-sync = "0.6"
heapless = "0.8"
