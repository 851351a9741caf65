[package]
name = "simple_oracle"
version = "0.1.0"
edition = "2021"
publish = false

[dependencies]
lite-json = "0.2"
parity-scale-codec = { version = "3", features = ["derive"] }
frame-support = "*"
frame-system = "*"
sp-runtime = "*"
sp-io = "*"
sp-std = "*"
log = "0.4"
