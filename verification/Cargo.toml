[package]
name = "ddc_node_staking"
version = "0.1.0"
edition = "2021"
publish = false

[dependencies]
frame-benchmarking = "=39.0.0"
frame-support = "39"
frame-system = "39"
parity-scale-codec = { version = "3", features = ["derive"] }
scale-info = { version = "2", features = ["derive"] }
sp-core = "35"
sp-runtime = "40"
