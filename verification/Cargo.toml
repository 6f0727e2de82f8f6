[package]
name = "kirv"
version = "0.1.0"
edition = "2021"
publish = false

[dependencies]
nix = { version = "=0.31.3", features = ["process", "signal", "user"] }
signal-hook = "=0.4.6"
sysinfo = "=0.39.6"
