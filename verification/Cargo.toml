[package]
name = "deet"
version = "0.1.0"
edition = "2021"
publish = false

[dependencies]
nix = { version = "0.29.0", features = ["ptrace", "signal", "process"] }
rand = "0.8"
rustyline = "*"
crossbeam-channel = "0.5"
