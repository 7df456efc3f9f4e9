[package]
name = "memcache"
version = "0.1.0"
edition = "2021"
publish = false

[dependencies]
minivec = "0.4"
parking_lot = "0.12"
