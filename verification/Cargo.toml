[package]
name = "rust_qr"
version = "0.1.0"
edition = "2021"
publish = false

[dependencies]
quircs = "*"
rayon = "*"
image = { version = "*", default-features = false, features = ["png", "jpeg"] }
