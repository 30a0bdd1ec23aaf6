[package]
name = "catalog_capture_core"
version = "0.1.0"
edition = "2021"
publish = false

[dependencies]
anyhow = "1"
chrono = { version = "0.4", default-features = false, features = ["std", "clock"] }
chrono-tz = "0.10"
libc = "0.2"
rust_decimal = "1"
serde = { version = "1", features = ["derive"] }
serde_json = "1"
