[package]
name = "imohash"
version = "0.1.0"
edition = "2021"
publish = false

[dependencies]
murmur3 = "*"

[dev-dependencies]
md-5 = "*"
hex = "*"
