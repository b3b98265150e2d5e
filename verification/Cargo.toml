[package]
name = "scs_servo"
version = "0.1.0"
edition = "2021"
publish = false

[dependencies]
clap = { version = "*", features = ["derive"] }
clap-num = "*"
env_logger = "*"
hex = "*"
indicatif = "*"
log = "*"
serialport = "*"
