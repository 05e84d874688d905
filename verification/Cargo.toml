[package]
name = "usb_log"
version = "0.1.0"
edition = "2021"
publish = false

[dependencies]
critical-section = { version = "1", features = ["std"] }
log = "0.4"
usb-device = "0.3"
rusb = "0.9"
clap = { version = "4", features = ["derive"] }
