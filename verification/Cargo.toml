[package]
name = "gateway"
version = "0.1.0"
edition = "2021"
publish = false

[dependencies]
chrono = "0.4"
nix = { version = "0.29", features = ["event"] }
socket2 = "0.5"
simple-dns = "*"
simple_config_parser = "*"
