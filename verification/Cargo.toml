[package]
name = "tunvpn"
version = "0.1.0"
edition = "2021"
publish = false

[dependencies]
clap = { version = "*", features = ["derive"] }
nix = { version = "0.28", features = ["poll"] }
