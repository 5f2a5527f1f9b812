[package]
name = "prodjlink-rs"
version = "0.1.0"
edition = "2021"
publish = false

[dependencies]
libc = "0.2"
log = "0.4"
parking_lot = "0.12"
serde = { version = "1", features = ["derive"] }
socket2 = "0.5"
