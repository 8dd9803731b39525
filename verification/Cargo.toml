[package]
name = "serial_agent"
version = "0.1.0"
edition = "2021"
publish = false

[dependencies]
base64 = "0.13"
nix = { version = "0.29", features = ["signal", "process"] }
serialport = { version = "4", default-features = false }
subprocess = "0.2"
