[package]
name = "gestures"
version = "0.1.0"
edition = "2021"
publish = false

[dependencies]
chrono = "*"
clap = { version = "*", features = ["derive"] }
ctrlc = "*"
env_logger = "*"
input = "*"
libxdo = "*"
log = "*"
nix = { version = "=0.29.0", features = ["poll", "fs"] }
parking_lot = "*"
signal-hook = "*"
threadpool = "*"
timer = "*"
