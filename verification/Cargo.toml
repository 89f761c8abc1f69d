[package]
name = "sqm_autorate"
version = "0.1.0"
edition = "2021"
publish = false

[dependencies]
rand = "0.8"
rustix = { version = "0.38", features = ["time"] }
socket2 = "0.5"
neli = "0.6"
anyhow = "1"
