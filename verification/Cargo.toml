[package]
name = "sim2"
version = "0.1.0"
edition = "2021"
publish = false

[dependencies]
rand = "0.8"
gtk4 = { version = "*", features = ["v4_10"] }
