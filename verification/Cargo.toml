[package]
name = "lvast"
version = "0.1.0"
edition = "2021"
publish = false

[dependencies]
image = { version = "0.25", default-features = false, features = ["jpeg", "png", "tiff"] }
chrono = "0.4"
log = "0.4"
serialport = "4"
socket2 = "0.5"
