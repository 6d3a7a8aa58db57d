[package]
name = "pallets"
version = "0.1.0"
edition = "2021"
publish = false

[dependencies]
base58 = "=0.1.0"
parity-scale-codec = { version = "=2.0.1", features = ["derive"] }
sp-std = "=3.0.0"
sp-io = "=3.0.0"
sp-core = "=3.0.0"
sp-runtime = "=3.0.0"
frame-support = "=3.0.0"
frame-system = "=3.0.0"
# Not called. They hold what sp-core and frame-support depend on to versions that build together.
substrate-bip39 = "=0.4.2"
syn = "=1.0.58"
