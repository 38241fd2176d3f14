[package]
name = "is2fp"
version = "0.1.0"
edition = "2021"
publish = false

[dependencies]
sha2 = "0.10"
rand = "0.9"

[dev-dependencies]
hex = "0.4"
