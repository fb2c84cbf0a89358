[package]
name = "iso_usb_hub"
version = "0.1.0"
edition = "2021"
publish = false

[dependencies]
heapless = "=0.9.3"
serde = { version = "1", default-features = false, features = ["derive"] }
serde-json-core = "0.6"
