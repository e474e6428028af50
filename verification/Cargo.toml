[package]
name = "edgegrid_rs"
version = "0.1.0"
edition = "2021"
publish = false

[dependencies]
openssl = "0.10"
time = "0.2"
uuid = { version = "0.8", features = ["v4"] }
