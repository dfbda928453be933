[package]
name = "button_scan"
version = "0.1.0"
edition = "2021"
publish = false

[dependencies]
memflow = "0.2"
serde = { version = "1", features = ["derive"] }
log = "0.4"
