[package]
name = "vnt"
version = "0.1.0"
edition = "2021"
publish = false

[dependencies]
anyhow = "1.0"
bytes = "1"
log = "0.4"
mio = { version = "0.8", features = ["os-poll", "net"] }
parking_lot = "0.12"
socket2 = "0.5"
uuid = { version = "1", features = ["v4"] }
