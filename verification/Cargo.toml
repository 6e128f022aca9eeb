[package]
name = "statement_distribution"
version = "0.1.0"
edition = "2021"
publish = false

[dependencies]
arrayvec = "=0.5.2"
futures = "=0.3.34"
log = "=0.4.34"
parity-scale-codec = { version = "=3.7.5", features = ["derive"] }
wasm-timer = "=0.2.5"
