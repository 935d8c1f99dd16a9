[package]
name = "embedded-hal-sim"
version = "0.1.0"
edition = "2021"
publish = false

[dependencies]
embassy-net-driver-channel = "*"
embedded-graphics = "0.8"
embedded-hal = "1"
embedded-hal-async = "1"
embedded-storage = "*"
embedded-storage-async = "*"
futures = "0.3"
log = "0.4"
parking_lot = "0.12"
tokio = { version = "1", features = ["sync", "time", "rt", "macros"] }
tokio-tun = "*"
