[package]
name = "framing"
version = "0.1.0"
edition = "2021"
publish = false

[dependencies]
chrono = "0.4"
crc = "3"
rand = "0.8"
regex = "1"
serialport = { version = "4", default-features = false }
