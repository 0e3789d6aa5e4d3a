[package]
name = "kitties"
version = "0.1.0"
edition = "2021"
publish = false

[dependencies]
parity-scale-codec = { version = "=1.3.7", features = ["derive"] }
sp-io = "49.0.0"
sp-std = "=2.0.1"
