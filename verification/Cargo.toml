[package]
name = "fsw_lib"
version = "0.1.0"
edition = "2021"
publish = false

[dependencies]
chrono = { version = "=0.4.45", default-features = false }
embedded-hal-async = "=1.0.0"
embedded-sdmmc = "=0.9.0"
vl53l4cd-ulp = { version = "=0.1.1", features = ["async"] }
embassy-time = "=0.5.1"
heapless = "=0.8.0"
