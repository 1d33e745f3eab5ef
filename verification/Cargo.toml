[package]
name = "dns_stub"
version = "0.1.0"
edition = "2021"
publish = false

[dependencies]
arrayvec = "0.7"
rand = "0.8"

[dev-dependencies]
hex = "0.4"
